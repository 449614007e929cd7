use move_compiler_wasm::arithmetic::{
    add, calculate_add, calculate_divide, calculate_multiply, calculate_subtract, divide, multiply,
    subtract,
};

#[test]
fn test_add() {
    let result = calculate_add(2, 2);
    assert_eq!(result, 4);
}

#[test]
fn test_multiply() {
    let result = calculate_multiply(3, 4);
    assert_eq!(result, 12);
}

#[test]
fn subtract_and_divide_entry_points() {
    assert_eq!(calculate_subtract(10, 3), 7);
    assert_eq!(calculate_divide(17, 5), 3);
}

#[test]
fn helpers_at_their_limits() {
    assert_eq!(add(u64::MAX - 1, 1), u64::MAX);
    assert_eq!(multiply(u64::MAX, 1), u64::MAX);
    assert_eq!(multiply(0, 12345), 0);
    assert_eq!(subtract(5, 5), 0);
    assert_eq!(divide(0, 7), 0);
    assert_eq!(divide(u64::MAX, u64::MAX), 1);
}

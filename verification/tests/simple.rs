use move_compiler_wasm::simple::{SimpleCompiler, SimpleModule};

#[test]
fn test_simple_compile() {
    let module = SimpleModule {
        source: "module test::example { fun main() { let x = 1; } }".to_string(),
        address: "0x1".to_string(),
    };

    let compiler = SimpleCompiler::new(module);
    let result = compiler.compile(true, true, Ok(vec![vec![0xa1, 0x1c, 0xeb, 0x0b]]));
    assert!(result.success);
}

fn compiler() -> SimpleCompiler {
    SimpleCompiler::new(SimpleModule { source: "module 0x1::m {}".to_string(), address: "0x1".to_string() })
}

#[test]
fn new_keeps_the_request() {
    let c = compiler();
    assert_eq!(c.source, "module 0x1::m {}");
    assert_eq!(c.address, "0x1");
}

#[test]
fn first_module_is_returned() {
    let r = compiler().compile(true, true, Ok(vec![vec![1, 2], vec![3]]));
    assert!(r.success);
    assert_eq!(r.message, "Compilation successful");
    assert_eq!(r.bytecode, Some(vec![1, 2]));
}

#[test]
fn parse_error_comes_first() {
    let r = compiler().compile(false, false, Ok(vec![vec![1]]));
    assert!(!r.success);
    assert_eq!(r.message, "Parse error");
    assert_eq!(r.bytecode, None);
}

#[test]
fn invalid_address() {
    let r = compiler().compile(true, false, Ok(vec![vec![1]]));
    assert!(!r.success);
    assert_eq!(r.message, "Invalid address");
    assert_eq!(r.bytecode, None);
}

#[test]
fn no_output() {
    let r = compiler().compile(true, true, Ok(vec![]));
    assert!(!r.success);
    assert_eq!(r.message, "No output generated");
    assert_eq!(r.bytecode, None);
}

#[test]
fn compilation_failed() {
    let r = compiler().compile(true, true, Err(()));
    assert!(!r.success);
    assert_eq!(r.message, "Compilation failed");
    assert_eq!(r.bytecode, None);
}

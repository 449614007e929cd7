use move_compiler_wasm::alert_greeting;
use move_compiler_wasm::checked_greeting::{self, HelloOutcome};
use move_compiler_wasm::placeholder::compile_move;
use move_compiler_wasm::size_guard::something;

#[test]
fn alert_greeting_text() {
    assert_eq!(alert_greeting::helloworld("Verus"), "Hello World : Verus!");
    assert_eq!(alert_greeting::helloworld(""), "Hello World : !");
}

#[test]
fn checked_greeting_refuses_empty_name() {
    match checked_greeting::helloworld("") {
        HelloOutcome::Rejected { log, error } => {
            assert_eq!(log, "错误: 输入为空");
            assert_eq!(error, "名字不能为空");
        }
        HelloOutcome::Greeted { .. } => panic!("an empty name must be refused"),
    }
}

#[test]
fn checked_greeting_greets_a_name() {
    match checked_greeting::helloworld("世界") {
        HelloOutcome::Greeted { log_label, log_value, alert } => {
            assert_eq!(log_label, "调用 helloworld 函数，参数:");
            assert_eq!(log_value, "世界");
            assert_eq!(alert, "Hello World : 世界!");
        }
        HelloOutcome::Rejected { .. } => panic!("a name must be greeted"),
    }
}

#[test]
fn placeholder_answers_the_same_text() {
    assert_eq!(compile_move("module 0x1::m {}"), "some string");
    assert_eq!(compile_move(""), "some string");
}

#[test]
fn small_values_are_accepted() {
    something([0u8; 0]);
    something([0u8; 512]);
}

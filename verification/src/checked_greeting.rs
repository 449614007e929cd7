//! The greeting that refuses an empty name, with the console lines that go
//! with it.
use vstd::prelude::*;

verus! {

/// What greeting `name` amounts to: an empty name is refused with a console
/// line and an error; any other name is logged and greeted in an alert.
pub enum HelloOutcome {
    Rejected { log: String, error: String },
    Greeted { log_label: String, log_value: String, alert: String },
}

/// Greets `name`, refusing an empty one.
pub fn helloworld(name: &str) -> (r: HelloOutcome)
    ensures
        name@.len() == 0 ==> (r matches HelloOutcome::Rejected { log, error } && log@
            == "错误: 输入为空"@ && error@ == "名字不能为空"@),
        name@.len() != 0 ==> (r matches HelloOutcome::Greeted { log_label, log_value, alert }
            && log_label@ == "调用 helloworld 函数，参数:"@ && log_value@ == name@ && alert@
            == "Hello World : "@ + name@ + "!"@),
{
    if name.is_empty() {
        return HelloOutcome::Rejected {
            log: String::from_str("错误: 输入为空"),
            error: String::from_str("名字不能为空"),
        };
    }
    HelloOutcome::Greeted {
        log_label: String::from_str("调用 helloworld 函数，参数:"),
        log_value: String::from_str(name),
        alert: crate::alert_greeting::helloworld(name),
    }
}

} // verus!

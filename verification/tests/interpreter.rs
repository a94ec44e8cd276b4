use bytecode_vm::bytecode::{ByteCode, ByteCodeDataTypes, ByteCodeError, Event};
use bytecode_vm::interpreter::{execute, FnMap, ParamMap, RunResult, VarMap};
use bytecode_vm::strmap::StrMap;

const FUEL: u64 = 10_000;

fn run(
    code: Vec<ByteCode>,
    functions: FnMap,
) -> (RunResult, Vec<Event>) {
    execute(
        code,
        Vec::new(),
        VarMap::new(),
        ParamMap::new(),
        functions,
        FUEL,
    )
}

fn value_of(r: &RunResult) -> ByteCodeDataTypes {
    match r {
        RunResult::Finished(Ok(v), _) => *v,
        other => panic!("expected a value, got {:?}", other),
    }
}

fn error_of(r: &RunResult) -> ByteCodeError {
    match r {
        RunResult::Finished(Err(e), _) => *e,
        other => panic!("expected an error, got {:?}", other),
    }
}

fn execute_arithmetic_byte_code() -> bool {
    let (result, _) = run(
        vec![
            ByteCode::LoadVar(1),
            ByteCode::WriteVar("x".to_string()),
            ByteCode::LoadVar(2),
            ByteCode::WriteVar("y".to_string()),
            ByteCode::ReadVar("x".to_string()),
            ByteCode::LoadVar(1),
            ByteCode::Add,
            ByteCode::ReadVar("y".to_string()),
            ByteCode::Multiply,
            ByteCode::ReturnValue,
        ],
        StrMap::new(),
    );
    matches!(result, RunResult::Finished(Ok(_), _))
}

fn execute_compare_byte_code() -> bool {
    let (result, _) = run(
        vec![
            ByteCode::LoadVar(1),
            ByteCode::WriteVar("x".to_string()),
            ByteCode::LoadVar(2),
            ByteCode::WriteVar("y".to_string()),
            ByteCode::ReadVar("x".to_string()),
            ByteCode::ReadVar("y".to_string()),
            ByteCode::GreaterThan,
            ByteCode::ReturnValue,
        ],
        StrMap::new(),
    );
    matches!(result, RunResult::Finished(Ok(_), _))
}

fn execute_function_byte_code() -> bool {
    let mut functions: FnMap = StrMap::new();
    functions.insert(
        "add".to_string(),
        vec![
            ByteCode::ReadVar("x".to_string()),
            ByteCode::ReadVar("y".to_string()),
            ByteCode::Add,
            ByteCode::ReturnValue,
        ],
    );
    let (result, _) = run(
        vec![
            ByteCode::LoadVar(1),
            ByteCode::WriteVar("x".to_string()),
            ByteCode::LoadVar(2),
            ByteCode::WriteVar("y".to_string()),
            ByteCode::FunctionCall("add".to_string(), vec![]),
            ByteCode::ReturnValue,
        ],
        functions,
    );
    matches!(result, RunResult::Finished(Ok(_), _))
}

#[test]
fn test_arithmetic() {
    assert_eq!(execute_arithmetic_byte_code(), true);
}

#[test]
fn test_compare() {
    assert_eq!(execute_compare_byte_code(), true);
}

#[test]
fn test_function() {
    assert_eq!(execute_function_byte_code(), true);
}

#[test]
fn arithmetic_scenario_returns_four() {
    let (result, _) = run(
        vec![
            ByteCode::LoadVar(1),
            ByteCode::WriteVar("x".to_string()),
            ByteCode::LoadVar(2),
            ByteCode::WriteVar("y".to_string()),
            ByteCode::ReadVar("x".to_string()),
            ByteCode::LoadVar(1),
            ByteCode::Add,
            ByteCode::ReadVar("y".to_string()),
            ByteCode::Multiply,
            ByteCode::ReturnValue,
        ],
        StrMap::new(),
    );
    assert_eq!(value_of(&result), ByteCodeDataTypes::Integer64(4));
}

#[test]
fn each_arithmetic_op_on_two_loads() {
    for (op, expected) in [
        (ByteCode::Add, 10),
        (ByteCode::Subtract, 4),
        (ByteCode::Multiply, 21),
        (ByteCode::Divide, 2),
    ] {
        let (result, _) = run(
            vec![
                ByteCode::LoadVar(7),
                ByteCode::LoadVar(3),
                op,
                ByteCode::ReturnValue,
            ],
            StrMap::new(),
        );
        assert_eq!(value_of(&result), ByteCodeDataTypes::Integer64(expected));
    }
}

#[test]
fn divide_by_zero_is_soft_and_leaves_divisor() {
    let (result, log) = run(
        vec![
            ByteCode::LoadVar(9),
            ByteCode::LoadVar(0),
            ByteCode::Divide,
            ByteCode::ReturnValue,
        ],
        StrMap::new(),
    );
    assert_eq!(value_of(&result), ByteCodeDataTypes::Integer64(0));
    assert_eq!(log, vec![Event::SoftFault(ByteCodeError::DivisionByZero)]);
}

#[test]
fn arithmetic_underflow_is_soft() {
    let (result, log) = run(
        vec![ByteCode::LoadVar(5), ByteCode::Add, ByteCode::ReturnValue],
        StrMap::new(),
    );
    // the lone 5 stays on the stack and comes back
    assert_eq!(value_of(&result), ByteCodeDataTypes::Integer64(5));
    assert_eq!(log, vec![Event::SoftFault(ByteCodeError::StackUnderflow)]);
}

#[test]
fn write_read_round_trip() {
    let (result, _) = run(
        vec![
            ByteCode::LoadVar(42),
            ByteCode::WriteVar("n".to_string()),
            ByteCode::ReadVar("n".to_string()),
            ByteCode::ReturnValue,
        ],
        StrMap::new(),
    );
    assert_eq!(value_of(&result), ByteCodeDataTypes::Integer64(42));
}

#[test]
fn loop_counts_to_three() {
    let cond = vec![
        ByteCode::ReadVar("i".to_string()),
        ByteCode::LoadVar(3),
        ByteCode::LessThan,
    ];
    let body = vec![
        ByteCode::ReadVar("i".to_string()),
        ByteCode::LoadVar(1),
        ByteCode::Add,
        ByteCode::WriteVar("i".to_string()),
    ];
    let (result, _) = run(
        vec![
            ByteCode::LoadVar(0),
            ByteCode::WriteVar("i".to_string()),
            ByteCode::Loop(cond, body),
            ByteCode::ReadVar("i".to_string()),
            ByteCode::ReturnValue,
        ],
        StrMap::new(),
    );
    assert_eq!(value_of(&result), ByteCodeDataTypes::Integer64(3));
}

#[test]
fn function_call_does_not_change_caller_bindings() {
    let mut functions: FnMap = StrMap::new();
    functions.insert(
        "clobber".to_string(),
        vec![
            ByteCode::LoadVar(99),
            ByteCode::WriteVar("x".to_string()),
            ByteCode::Return,
        ],
    );
    let (result, _) = run(
        vec![
            ByteCode::LoadVar(1),
            ByteCode::WriteVar("x".to_string()),
            ByteCode::FunctionCall("clobber".to_string(), vec![]),
            ByteCode::ReadVar("x".to_string()),
        ],
        functions,
    );
    match result {
        RunResult::Finished(Ok(v), vars) => {
            assert_eq!(v, ByteCodeDataTypes::Integer64(1));
            assert_eq!(
                vars.get(&"x".to_string()),
                Some(&ByteCodeDataTypes::Integer64(1))
            );
        }
        other => panic!("unexpected outcome {:?}", other),
    }
}

#[test]
fn channel_carries_value_between_spawns() {
    let sender_body = vec![
        ByteCode::LoadVar(7),
        ByteCode::SendChannel("tx".to_string()),
        ByteCode::Return,
    ];
    let receiver_body = vec![
        ByteCode::ReceiveChannel("rx".to_string()),
        ByteCode::ReturnValue,
    ];
    let (result, _) = run(
        vec![
            ByteCode::Channel("tx".to_string(), "rx".to_string()),
            ByteCode::Spawn(sender_body, vec!["tx".to_string()]),
            ByteCode::Spawn(receiver_body, vec!["rx".to_string()]),
            ByteCode::ReturnValue,
        ],
        StrMap::new(),
    );
    assert_eq!(value_of(&result), ByteCodeDataTypes::Integer64(7));
}

#[test]
fn send_on_unknown_channel_is_hard() {
    let (result, _) = run(
        vec![
            ByteCode::LoadVar(1),
            ByteCode::SendChannel("nowhere".to_string()),
        ],
        StrMap::new(),
    );
    assert_eq!(error_of(&result), ByteCodeError::ChannelNotFound);
}

#[test]
fn read_of_unbound_variable_is_hard() {
    let (result, _) = run(
        vec![ByteCode::ReadVar("ghostly".to_string())],
        StrMap::new(),
    );
    assert_eq!(error_of(&result), ByteCodeError::StackUnderflow);
}

#[test]
fn write_on_empty_stack_is_hard() {
    let (result, _) = run(vec![ByteCode::WriteVar("x".to_string())], StrMap::new());
    assert_eq!(error_of(&result), ByteCodeError::StackUnderflow);
}

#[test]
fn empty_program_reports_unknown_byte_code() {
    let (result, _) = run(vec![], StrMap::new());
    assert_eq!(error_of(&result), ByteCodeError::UnknownByteCode);
}

#[test]
fn return_value_on_empty_stack_reports_unknown_byte_code() {
    let (result, _) = run(vec![ByteCode::ReturnValue], StrMap::new());
    assert_eq!(error_of(&result), ByteCodeError::UnknownByteCode);
}

#[test]
fn mutex_opcode_is_soft() {
    let (result, log) = run(
        vec![
            ByteCode::LoadVar(3),
            ByteCode::Mutex("m".to_string()),
            ByteCode::ReturnValue,
        ],
        StrMap::new(),
    );
    assert_eq!(value_of(&result), ByteCodeDataTypes::Integer64(3));
    assert_eq!(log, vec![Event::SoftFault(ByteCodeError::StackUnderflow)]);
}

#[test]
fn print_ln_logs_name_and_value() {
    let (result, log) = run(
        vec![
            ByteCode::LoadVar(5),
            ByteCode::WriteVar("v".to_string()),
            ByteCode::PrintLn("v".to_string()),
            ByteCode::ReadVar("v".to_string()),
            ByteCode::ReturnValue,
        ],
        StrMap::new(),
    );
    assert_eq!(value_of(&result), ByteCodeDataTypes::Integer64(5));
    assert_eq!(
        log,
        vec![Event::Printed(
            "v".to_string(),
            ByteCodeDataTypes::Integer64(5),
            true
        )]
    );
}

#[test]
fn sleep_is_logged() {
    let (result, log) = run(
        vec![
            ByteCode::Sleep(2),
            ByteCode::LoadVar(1),
            ByteCode::ReturnValue,
        ],
        StrMap::new(),
    );
    assert_eq!(value_of(&result), ByteCodeDataTypes::Integer64(1));
    assert_eq!(log, vec![Event::Slept(2)]);
}

#[test]
fn endless_loop_runs_out_of_fuel() {
    let cond = vec![ByteCode::LoadVar(1), ByteCode::LoadVar(1), ByteCode::LessThanEqual];
    let (result, _) = execute(
        vec![ByteCode::Loop(cond, vec![ByteCode::Return])],
        Vec::new(),
        VarMap::new(),
        ParamMap::new(),
        StrMap::new(),
        10,
    );
    assert!(matches!(result, RunResult::OutOfFuel));
}

#[test]
fn call_of_unknown_function_is_stuck() {
    let (result, _) = run(
        vec![ByteCode::FunctionCall("missing".to_string(), vec![])],
        StrMap::new(),
    );
    assert!(matches!(result, RunResult::Stuck));
}

#[test]
fn str_map_insert_get_take() {
    let mut m: StrMap<i64> = StrMap::new();
    assert_eq!(m.get(&"a".to_string()), None);
    m.insert("a".to_string(), 1);
    m.insert("b".to_string(), 2);
    m.insert("a".to_string(), 3);
    assert_eq!(m.get(&"a".to_string()), Some(&3));
    assert_eq!(m.get(&"b".to_string()), Some(&2));
    assert!(m.contains(&"a".to_string()));
    let taken = m.take(&"a".to_string());
    assert_eq!(taken, Some(3));
    assert_eq!(m.get(&"a".to_string()), None);
    assert!(!m.contains(&"a".to_string()));
    assert_eq!(m.take(&"a".to_string()), None);
    let copy = m.duplicate();
    assert_eq!(copy.get(&"b".to_string()), Some(&2));
}

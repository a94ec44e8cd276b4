use bytecode_vm::bytecode::{ByteCode, ByteCodeDataTypes};
use bytecode_vm::interpreter::{execute, ParamMap, RunResult, VarMap};
use bytecode_vm::parse_code::parse_code;
use bytecode_vm::strmap::StrMap;

#[test]
fn parses_flat_instructions() {
    let (code, functions) = parse_code("LOAD_VAL 1\nWRITE_VAR x\nREAD_VAR x\nRETURN_VALUE\n");
    assert_eq!(
        code,
        vec![
            ByteCode::LoadVar(1),
            ByteCode::WriteVar("x".to_string()),
            ByteCode::ReadVar("x".to_string()),
            ByteCode::ReturnValue,
        ]
    );
    assert_eq!(functions.items().len(), 0);
}

#[test]
fn parses_negative_and_extreme_numbers() {
    let (code, _) = parse_code(
        "LOAD_VAL -5\nLOAD_VAL +7\nLOAD_VAL 9223372036854775807\nLOAD_VAL -9223372036854775808\n",
    );
    assert_eq!(
        code,
        vec![
            ByteCode::LoadVar(-5),
            ByteCode::LoadVar(7),
            ByteCode::LoadVar(i64::MAX),
            ByteCode::LoadVar(i64::MIN),
        ]
    );
}

#[test]
fn out_of_range_or_malformed_numbers_are_skipped() {
    let (code, _) = parse_code(
        "LOAD_VAL 9223372036854775808\nLOAD_VAL 99999999999999999999999\nLOAD_VAL abc\nLOAD_VAL\nLOAD_VAL 4\n",
    );
    assert_eq!(code, vec![ByteCode::LoadVar(4)]);
}

#[test]
fn unknown_mnemonics_are_silently_skipped() {
    let with_noise = parse_code("LOAD_VAL 1\nFROBNICATE x y\nLOAD_VAL 2\nADD\nRETURN_VALUE\n");
    let without = parse_code("LOAD_VAL 1\nLOAD_VAL 2\nADD\nRETURN_VALUE\n");
    assert_eq!(with_noise.0, without.0);
}

#[test]
fn parses_loop_nesting() {
    let (code, _) = parse_code(
        "LOAD_VAL 0\nWRITE_VAR i\nLOOP\nREAD_VAR i\nLOAD_VAL 3\nLESS_THAN\nLOOP_START\nREAD_VAR i\nLOAD_VAL 1\nADD\nWRITE_VAR i\nLOOP_END\nREAD_VAR i\nRETURN_VALUE\n",
    );
    assert_eq!(
        code,
        vec![
            ByteCode::LoadVar(0),
            ByteCode::WriteVar("i".to_string()),
            ByteCode::Loop(
                vec![
                    ByteCode::ReadVar("i".to_string()),
                    ByteCode::LoadVar(3),
                    ByteCode::LessThan,
                ],
                vec![
                    ByteCode::ReadVar("i".to_string()),
                    ByteCode::LoadVar(1),
                    ByteCode::Add,
                    ByteCode::WriteVar("i".to_string()),
                ],
            ),
            ByteCode::ReadVar("i".to_string()),
            ByteCode::ReturnValue,
        ]
    );
}

#[test]
fn parses_functions_and_calls() {
    let (code, functions) = parse_code(
        "FUNC add\nREAD_VAR x\nREAD_VAR y\nADD\nRETURN_VALUE\nFUNC_END\nLOAD_VAL 1\nWRITE_VAR x\nLOAD_VAL 2\nWRITE_VAR y\nFUNC_CALL add\nRETURN_VALUE\n",
    );
    assert_eq!(
        code,
        vec![
            ByteCode::LoadVar(1),
            ByteCode::WriteVar("x".to_string()),
            ByteCode::LoadVar(2),
            ByteCode::WriteVar("y".to_string()),
            ByteCode::FunctionCall("add".to_string(), vec![]),
            ByteCode::ReturnValue,
        ]
    );
    assert_eq!(
        functions.get(&"add".to_string()),
        Some(&vec![
            ByteCode::ReadVar("x".to_string()),
            ByteCode::ReadVar("y".to_string()),
            ByteCode::Add,
            ByteCode::ReturnValue,
        ])
    );
}

#[test]
fn parses_spawn_and_channels() {
    let (code, _) = parse_code(
        "CHANNEL tx rx\nSPAWN tx\nLOAD_VAL 7\nSEND_CHANNEL tx\nRETURN\nSPAWN_END\nSPAWN rx\nRECEIVE_CHANNEL rx\nRETURN_VALUE\nSPAWN_END\nRETURN_VALUE\n",
    );
    assert_eq!(
        code,
        vec![
            ByteCode::Channel("tx".to_string(), "rx".to_string()),
            ByteCode::Spawn(
                vec![
                    ByteCode::LoadVar(7),
                    ByteCode::SendChannel("tx".to_string()),
                    ByteCode::Return,
                ],
                vec!["tx".to_string()],
            ),
            ByteCode::Spawn(
                vec![
                    ByteCode::ReceiveChannel("rx".to_string()),
                    ByteCode::ReturnValue,
                ],
                vec!["rx".to_string()],
            ),
            ByteCode::ReturnValue,
        ]
    );
}

#[test]
fn blank_lines_and_stray_blanks_are_tolerated() {
    let (code, _) = parse_code("  \n\nLOAD_VAL   1\r\n\tRETURN_VALUE\n\n");
    assert_eq!(code, vec![ByteCode::LoadVar(1), ByteCode::ReturnValue]);
}

#[test]
fn block_end_without_open_block_is_skipped() {
    let (code, _) = parse_code("LOOP_END\nFUNC_END\nSPAWN_END\nLOAD_VAL 2\nRETURN_VALUE\n");
    assert_eq!(code, vec![ByteCode::LoadVar(2), ByteCode::ReturnValue]);
}

#[test]
fn parsed_loop_script_runs_to_three() {
    let (code, functions) = parse_code(
        "LOAD_VAL 0\nWRITE_VAR i\nLOOP\nREAD_VAR i\nLOAD_VAL 3\nLESS_THAN\nLOOP_START\nREAD_VAR i\nLOAD_VAL 1\nADD\nWRITE_VAR i\nLOOP_END\nREAD_VAR i\nRETURN_VALUE\n",
    );
    let (result, _) = execute(
        code,
        Vec::new(),
        VarMap::new(),
        ParamMap::new(),
        functions,
        10_000,
    );
    match result {
        RunResult::Finished(Ok(v), _) => assert_eq!(v, ByteCodeDataTypes::Integer64(3)),
        other => panic!("unexpected outcome {:?}", other),
    }
}

#[test]
fn parsed_channel_script_hands_the_value_over() {
    let (code, functions) = parse_code(
        "CHANNEL tx rx\nSPAWN tx\nLOAD_VAL 41\nSEND_CHANNEL tx\nRETURN\nSPAWN_END\nSPAWN rx\nRECEIVE_CHANNEL rx\nRETURN_VALUE\nSPAWN_END\nRETURN_VALUE\n",
    );
    let (result, _) = execute(
        code,
        Vec::new(),
        VarMap::new(),
        ParamMap::new(),
        functions,
        10_000,
    );
    match result {
        RunResult::Finished(Ok(v), _) => assert_eq!(v, ByteCodeDataTypes::Integer64(41)),
        other => panic!("unexpected outcome {:?}", other),
    }
}

#[test]
fn sleep_line_parses_duration() {
    let (code, _) = parse_code("SLEEP 3\nRETURN\n");
    assert_eq!(code, vec![ByteCode::Sleep(3), ByteCode::Return]);
}

#[test]
fn func_call_with_forwarded_names() {
    let (code, _) = parse_code("FUNC_CALL worker tx rx\n");
    assert_eq!(
        code,
        vec![ByteCode::FunctionCall(
            "worker".to_string(),
            vec!["tx".to_string(), "rx".to_string()],
        )]
    );
}

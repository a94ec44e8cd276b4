//! General properties of the machine and the assembler, stated over the
//! specification functions and proved once and for all.

use vstd::prelude::*;

use crate::bytecode::{ByteCodeDataTypes, ByteCodeError, ByteCodeMpscSyncTypes, InstrV, LogEvent};
use crate::parse_code::{asm_line, AsmState};
use crate::semantics::{run_program, run_seq, sub_frame, take_params, EvalState, FnTable, Outcome};

verus! {

/// A run of `code` from the empty machine: empty stack, no variables, no
/// parameters, no functions.
pub open spec fn clean_run(code: Seq<InstrV>, fuel: nat) -> Outcome {
    run_program(
        code,
        Seq::empty(),
        Map::empty(),
        Map::empty(),
        Map::<Seq<char>, Seq<InstrV>>::empty(),
        fuel,
    )
}

/// Loading `a` then `b` and adding yields exactly `a + b`, for every pair
/// whose sum the machine's 64-bit integers can hold.
pub proof fn lemma_add_program(a: i64, b: i64, fuel: nat)
    requires
        i64::MIN <= a + b <= i64::MAX,
    ensures
        clean_run(seq![InstrV::LoadVar(a), InstrV::LoadVar(b), InstrV::Add, InstrV::ReturnValue], fuel)
            == (Outcome::Done {
            result: Ok(ByteCodeDataTypes::Integer64((a + b) as i64)),
            vars: Map::empty(),
            queues: Seq::empty(),
            log: Seq::empty(),
        }),
{
    lemma_arith_steps(a, b, InstrV::Add, (a + b) as i64, fuel);
}

/// Loading `a` then `b` and subtracting yields exactly `a - b`.
pub proof fn lemma_subtract_program(a: i64, b: i64, fuel: nat)
    requires
        i64::MIN <= a - b <= i64::MAX,
    ensures
        clean_run(
            seq![InstrV::LoadVar(a), InstrV::LoadVar(b), InstrV::Subtract, InstrV::ReturnValue],
            fuel,
        ) == (Outcome::Done {
            result: Ok(ByteCodeDataTypes::Integer64((a - b) as i64)),
            vars: Map::empty(),
            queues: Seq::empty(),
            log: Seq::empty(),
        }),
{
    lemma_arith_steps(a, b, InstrV::Subtract, (a - b) as i64, fuel);
}

/// Loading `a` then `b` and multiplying yields exactly `a * b`.
pub proof fn lemma_multiply_program(a: i64, b: i64, fuel: nat)
    requires
        i64::MIN <= a * b <= i64::MAX,
    ensures
        clean_run(
            seq![InstrV::LoadVar(a), InstrV::LoadVar(b), InstrV::Multiply, InstrV::ReturnValue],
            fuel,
        ) == (Outcome::Done {
            result: Ok(ByteCodeDataTypes::Integer64((a * b) as i64)),
            vars: Map::empty(),
            queues: Seq::empty(),
            log: Seq::empty(),
        }),
{
    lemma_arith_steps(a, b, InstrV::Multiply, (a * b) as i64, fuel);
}

/// Loading `a` then `b` and dividing yields exactly `a / b` — division
/// truncating toward zero, as `i64::checked_div` gives it — for every pair
/// with `b` nonzero whose quotient the 64-bit integers can hold.
pub proof fn lemma_divide_program(a: i64, b: i64, fuel: nat)
    requires
        b != 0,
        !(a == i64::MIN && b == -1),
    ensures
        a.checked_div(b) is Some,
        clean_run(
            seq![InstrV::LoadVar(a), InstrV::LoadVar(b), InstrV::Divide, InstrV::ReturnValue],
            fuel,
        ) == (Outcome::Done {
            result: Ok(ByteCodeDataTypes::Integer64(a.checked_div(b)->0)),
            vars: Map::empty(),
            queues: Seq::empty(),
            log: Seq::empty(),
        }),
{
    lemma_div_in_range(a, b);
    lemma_arith_steps(a, b, InstrV::Divide, a.checked_div(b)->0, fuel);
}

/// The truncating 64-bit quotient exists whenever the divisor is nonzero
/// and the one overflowing pair is ruled out.
proof fn lemma_div_in_range(a: i64, b: i64)
    requires
        b != 0,
        !(a == i64::MIN && b == -1),
    ensures
        a.checked_div(b) is Some,
{
    broadcast use vstd::arithmetic::div_mod::lemma_div_nonincreasing;
    broadcast use vstd::arithmetic::div_mod::lemma_div_pos_is_pos;
    broadcast use vstd::arithmetic::div_mod::lemma_div_is_ordered_by_denominator;

    let x = a as int;
    let d = b as int;
    if x == 0 {
    } else if x > 0 && d > 0 {
        assert(x / d <= x);
        assert(x / d >= 0);
    } else if x < 0 && d < 0 {
        let p = x * -1;
        let q = d * -1;
        assert(p / q >= 0);
        assert(p / q <= p);
        if a == i64::MIN {
            assert(q >= 2);
            assert(p / q <= p / 2);
        }
    } else if x < 0 {
        let p = x * -1;
        assert(p / d >= 0);
        assert(p / d <= p);
    } else {
        let q = d * -1;
        assert(x / q >= 0);
        assert(x / q <= x);
    }
}

proof fn lemma_arith_steps(a: i64, b: i64, op: InstrV, r: i64, fuel: nat)
    requires
        op == InstrV::Add ==> a.checked_add(b) == Some(r),
        op == InstrV::Subtract ==> a.checked_sub(b) == Some(r),
        op == InstrV::Multiply ==> a.checked_mul(b) == Some(r),
        op == InstrV::Divide ==> b != 0 && a.checked_div(b) == Some(r),
        op == InstrV::Add || op == InstrV::Subtract || op == InstrV::Multiply || op
            == InstrV::Divide,
    ensures
        clean_run(seq![InstrV::LoadVar(a), InstrV::LoadVar(b), op, InstrV::ReturnValue], fuel)
            == (Outcome::Done {
            result: Ok(ByteCodeDataTypes::Integer64(r)),
            vars: Map::empty(),
            queues: Seq::empty(),
            log: Seq::empty(),
        }),
{
    let code = seq![InstrV::LoadVar(a), InstrV::LoadVar(b), op, InstrV::ReturnValue];
    let funcs = Map::<Seq<char>, Seq<InstrV>>::empty();
    let st0 = EvalState {
        stack: Seq::empty(),
        vars: Map::empty(),
        params: Map::empty(),
        chans: Map::empty(),
        queues: Seq::empty(),
        log: Seq::empty(),
    };
    let st1 = EvalState { stack: seq![ByteCodeDataTypes::Integer64(a)], ..st0 };
    let st2 = EvalState {
        stack: seq![ByteCodeDataTypes::Integer64(a), ByteCodeDataTypes::Integer64(b)],
        ..st0
    };
    let st3 = EvalState { stack: seq![ByteCodeDataTypes::Integer64(r)], ..st0 };
    assert(code.drop_first() =~= seq![InstrV::LoadVar(b), op, InstrV::ReturnValue]);
    assert(code.drop_first().drop_first() =~= seq![op, InstrV::ReturnValue]);
    assert(code.drop_first().drop_first().drop_first() =~= seq![InstrV::ReturnValue]);
    assert(st0.stack.push(ByteCodeDataTypes::Integer64(a)) =~= st1.stack);
    assert(st1.stack.push(ByteCodeDataTypes::Integer64(b)) =~= st2.stack);
    assert(run_seq(code, st0, funcs, fuel) == run_seq(code.drop_first(), st1, funcs, fuel));
    assert(run_seq(code.drop_first(), st1, funcs, fuel) == run_seq(
        code.drop_first().drop_first(),
        st2,
        funcs,
        fuel,
    ));
    assert(st2.stack.last() == ByteCodeDataTypes::Integer64(b));
    assert(st2.stack[st2.stack.len() - 2] == ByteCodeDataTypes::Integer64(a));
    assert(st2.stack.drop_last().drop_last().push(ByteCodeDataTypes::Integer64(r))
        =~= st3.stack);
    assert(run_seq(code.drop_first().drop_first(), st2, funcs, fuel) == run_seq(
        code.drop_first().drop_first().drop_first(),
        st3,
        funcs,
        fuel,
    ));
    assert(run_seq(code.drop_first().drop_first().drop_first(), st3, funcs, fuel)
        == (Outcome::Done {
        result: Ok(ByteCodeDataTypes::Integer64(r)),
        vars: Map::empty(),
        queues: Seq::empty(),
        log: Seq::empty(),
    }));
}

/// Dividing by a zero on top of the stack is a soft fault: the division is
/// noted in the log, the stack is left untouched, and a following
/// `ReturnValue` therefore pops the zero divisor itself.
pub proof fn lemma_divide_by_zero_program(a: i64, fuel: nat)
    ensures
        clean_run(
            seq![InstrV::LoadVar(a), InstrV::LoadVar(0), InstrV::Divide, InstrV::ReturnValue],
            fuel,
        ) == (Outcome::Done {
            result: Ok(ByteCodeDataTypes::Integer64(0)),
            vars: Map::empty(),
            queues: Seq::empty(),
            log: seq![LogEvent::SoftFault(ByteCodeError::DivisionByZero)],
        }),
{
    let code = seq![InstrV::LoadVar(a), InstrV::LoadVar(0), InstrV::Divide, InstrV::ReturnValue];
    let funcs = Map::<Seq<char>, Seq<InstrV>>::empty();
    let st0 = EvalState {
        stack: Seq::empty(),
        vars: Map::empty(),
        params: Map::empty(),
        chans: Map::empty(),
        queues: Seq::empty(),
        log: Seq::empty(),
    };
    let st1 = EvalState { stack: seq![ByteCodeDataTypes::Integer64(a)], ..st0 };
    let st2 = EvalState {
        stack: seq![ByteCodeDataTypes::Integer64(a), ByteCodeDataTypes::Integer64(0)],
        ..st0
    };
    let st3 = EvalState {
        log: seq![LogEvent::SoftFault(ByteCodeError::DivisionByZero)],
        ..st2
    };
    assert(code.drop_first() =~= seq![InstrV::LoadVar(0), InstrV::Divide, InstrV::ReturnValue]);
    assert(code.drop_first().drop_first() =~= seq![InstrV::Divide, InstrV::ReturnValue]);
    assert(code.drop_first().drop_first().drop_first() =~= seq![InstrV::ReturnValue]);
    assert(st0.stack.push(ByteCodeDataTypes::Integer64(a)) =~= st1.stack);
    assert(st1.stack.push(ByteCodeDataTypes::Integer64(0)) =~= st2.stack);
    assert(run_seq(code, st0, funcs, fuel) == run_seq(code.drop_first(), st1, funcs, fuel));
    assert(run_seq(code.drop_first(), st1, funcs, fuel) == run_seq(
        code.drop_first().drop_first(),
        st2,
        funcs,
        fuel,
    ));
    assert(st2.stack.last() == ByteCodeDataTypes::Integer64(0));
    assert(st2.log.push(LogEvent::SoftFault(ByteCodeError::DivisionByZero)) =~= st3.log);
    assert(run_seq(code.drop_first().drop_first(), st2, funcs, fuel) == run_seq(
        code.drop_first().drop_first().drop_first(),
        st3,
        funcs,
        fuel,
    ));
    assert(st3.stack.last() == ByteCodeDataTypes::Integer64(0));
}

/// Writing a variable and reading it back reproduces exactly the written
/// value, for every name and every value.
pub proof fn lemma_write_read_round_trip(x: Seq<char>, v: i64, fuel: nat)
    ensures
        clean_run(
            seq![
                InstrV::LoadVar(v),
                InstrV::WriteVar(x),
                InstrV::ReadVar(x),
                InstrV::ReturnValue,
            ],
            fuel,
        ) == (Outcome::Done {
            result: Ok(ByteCodeDataTypes::Integer64(v)),
            vars: Map::empty(),
            queues: Seq::empty(),
            log: Seq::empty(),
        }),
{
    let code = seq![
        InstrV::LoadVar(v),
        InstrV::WriteVar(x),
        InstrV::ReadVar(x),
        InstrV::ReturnValue,
    ];
    let funcs = Map::<Seq<char>, Seq<InstrV>>::empty();
    let st0 = EvalState {
        stack: Seq::empty(),
        vars: Map::empty(),
        params: Map::empty(),
        chans: Map::empty(),
        queues: Seq::empty(),
        log: Seq::empty(),
    };
    let st1 = EvalState { stack: seq![ByteCodeDataTypes::Integer64(v)], ..st0 };
    let st2 = EvalState {
        stack: Seq::empty(),
        vars: Map::empty().insert(x, ByteCodeDataTypes::Integer64(v)),
        ..st0
    };
    let st3 = EvalState { stack: seq![ByteCodeDataTypes::Integer64(v)], ..st2 };
    assert(code.drop_first() =~= seq![InstrV::WriteVar(x), InstrV::ReadVar(x), InstrV::ReturnValue]);
    assert(code.drop_first().drop_first() =~= seq![InstrV::ReadVar(x), InstrV::ReturnValue]);
    assert(code.drop_first().drop_first().drop_first() =~= seq![InstrV::ReturnValue]);
    assert(st0.stack.push(ByteCodeDataTypes::Integer64(v)) =~= st1.stack);
    assert(run_seq(code, st0, funcs, fuel) == run_seq(code.drop_first(), st1, funcs, fuel));
    assert(st1.stack.last() == ByteCodeDataTypes::Integer64(v));
    assert(st1.stack.drop_last() =~= st2.stack);
    assert(run_seq(code.drop_first(), st1, funcs, fuel) == run_seq(
        code.drop_first().drop_first(),
        st2,
        funcs,
        fuel,
    ));
    assert(st2.vars[x] == ByteCodeDataTypes::Integer64(v));
    assert(st2.stack.push(ByteCodeDataTypes::Integer64(v)) =~= st3.stack);
    assert(run_seq(code.drop_first().drop_first(), st2, funcs, fuel) == run_seq(
        code.drop_first().drop_first().drop_first(),
        st3,
        funcs,
        fuel,
    ));
}

/// A function call is isolated: whatever the function body did to its copy
/// of the variables, the caller's variables are reported unchanged — only
/// the returned value is observable, pushed onto the caller's stack and
/// popped at the end of the scan here.
pub proof fn lemma_function_call_isolated(
    st: EvalState,
    f: Seq<char>,
    funcs: FnTable,
    rv: ByteCodeDataTypes,
    sub_vars: Map<Seq<char>, ByteCodeDataTypes>,
    q2: Seq<Seq<i64>>,
    l2: Seq<LogEvent>,
    fuel: nat,
)
    requires
        fuel >= 1,
        funcs.contains_key(f),
        run_seq(funcs[f], sub_frame(st, Map::empty()), funcs, (fuel - 1) as nat)
            == (Outcome::Done { result: Ok(rv), vars: sub_vars, queues: q2, log: l2 }),
    ensures
        run_seq(seq![InstrV::FunctionCall(f, Seq::empty())], st, funcs, fuel) == (Outcome::Done {
            result: Ok(rv),
            vars: st.vars,
            queues: q2,
            log: l2,
        }),
{
    let code = seq![InstrV::FunctionCall(f, Seq::empty())];
    assert(take_params(Seq::empty(), st.params, Map::empty()) == Some((Map::<
        Seq<char>,
        ByteCodeMpscSyncTypes,
    >::empty(), st.params)));
    let st1 = EvalState { stack: st.stack.push(rv), queues: q2, log: l2, ..st };
    assert(run_seq(code, st, funcs, fuel) == run_seq(code.drop_first(), st1, funcs, fuel));
    assert(code.drop_first() =~= Seq::<InstrV>::empty());
    assert(st1.stack.last() == rv);
}

/// A line whose first token is no mnemonic of the bytecode language leaves
/// the assembler's state exactly as it was: no instruction is emitted and
/// nothing is recorded anywhere — the assembler keeps no diagnostics at
/// all.
pub proof fn lemma_unknown_mnemonic_skipped(st: AsmState, toks: Seq<Seq<char>>)
    requires
        toks.len() > 0,
        toks[0] != "LOAD_VAL"@,
        toks[0] != "WRITE_VAR"@,
        toks[0] != "READ_VAR"@,
        toks[0] != "ADD"@,
        toks[0] != "SUBTRACT"@,
        toks[0] != "MULTIPLY"@,
        toks[0] != "DIVIDE"@,
        toks[0] != "LESS_THAN"@,
        toks[0] != "LESS_THAN_EQUAL"@,
        toks[0] != "GREATER_THAN"@,
        toks[0] != "GREATER_THAN_EQUAL"@,
        toks[0] != "RETURN"@,
        toks[0] != "RETURN_VALUE"@,
        toks[0] != "PRINT"@,
        toks[0] != "PRINT_LN"@,
        toks[0] != "SLEEP"@,
        toks[0] != "LOOP"@,
        toks[0] != "LOOP_START"@,
        toks[0] != "LOOP_END"@,
        toks[0] != "FUNC"@,
        toks[0] != "FUNC_END"@,
        toks[0] != "FUNC_CALL"@,
        toks[0] != "SPAWN"@,
        toks[0] != "SPAWN_END"@,
        toks[0] != "CHANNEL"@,
        toks[0] != "SEND_CHANNEL"@,
        toks[0] != "RECEIVE_CHANNEL"@,
    ensures
        asm_line(st, toks) == st,
{
}

} // verus!

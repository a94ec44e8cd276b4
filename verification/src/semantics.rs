//! The meaning of an instruction sequence, as a step-indexed big-step
//! evaluator over abstract state.
//!
//! A frame owns an operand stack, a variable map, a parameter map of channel
//! endpoints handed over at frame creation, and a local channel table; all
//! frames share the channel queues and the logging sink, which thread through
//! every sub-frame and back.  `fuel` bounds how many sub-frames may be
//! entered and how many times a loop may come around: a run that would need
//! more reports `OutOfFuel` rather than a result.
//!
//! A run that reaches an operation with no defined next step — a receive on
//! an empty queue, a call of an unknown function, an operand of the wrong
//! kind, an arithmetic result outside the 64-bit range — reports `Stuck`:
//! such a run never yields a result.

use vstd::prelude::*;

use crate::bytecode::{ByteCodeDataTypes, ByteCodeError, ByteCodeMpscSyncTypes, InstrV, LogEvent};

verus! {

/// The state a frame executes against.
pub struct EvalState {
    pub stack: Seq<ByteCodeDataTypes>,
    pub vars: Map<Seq<char>, ByteCodeDataTypes>,
    pub params: Map<Seq<char>, ByteCodeMpscSyncTypes>,
    pub chans: Map<Seq<char>, ByteCodeMpscSyncTypes>,
    pub queues: Seq<Seq<i64>>,
    pub log: Seq<LogEvent>,
}

/// What a frame's run comes to.
///
/// On a hard error `result` is an `Err` and `vars` is empty; on a normal
/// completion `result` is the reported value and `vars` the frame's final
/// variable map.  Queues and log are returned so that an enclosing frame can
/// carry them on.
pub enum Outcome {
    Done {
        result: Result<ByteCodeDataTypes, ByteCodeError>,
        vars: Map<Seq<char>, ByteCodeDataTypes>,
        queues: Seq<Seq<i64>>,
        log: Seq<LogEvent>,
    },
    Stuck { log: Seq<LogEvent> },
    OutOfFuel { log: Seq<LogEvent> },
}

/// What one round of a loop head comes to: either the loop is over and the
/// enclosing frame continues with the given state, or the whole frame ends
/// early with the given outcome.
pub enum LoopOut {
    Next(EvalState),
    Early(Outcome),
}

pub type FnTable = Map<Seq<char>, Seq<InstrV>>;

/// A fresh sub-frame: empty stack, a copy of the variables, the handed-over
/// parameters, an empty channel table, the shared queues and log.
pub open spec fn sub_frame(st: EvalState, params: Map<Seq<char>, ByteCodeMpscSyncTypes>) -> EvalState {
    EvalState {
        stack: Seq::empty(),
        vars: st.vars,
        params,
        chans: Map::empty(),
        queues: st.queues,
        log: st.log,
    }
}

/// A hard error: the frame ends at once, reporting an empty variable map.
pub open spec fn hard(st: EvalState, e: ByteCodeError) -> Outcome {
    Outcome::Done { result: Err(e), vars: Map::empty(), queues: st.queues, log: st.log }
}

/// A soft error: noted in the log, execution continues, stack untouched.
pub open spec fn soft(st: EvalState, e: ByteCodeError) -> EvalState {
    EvalState { log: st.log.push(LogEvent::SoftFault(e)), ..st }
}

pub open spec fn push_value(st: EvalState, v: ByteCodeDataTypes) -> EvalState {
    EvalState { stack: st.stack.push(v), ..st }
}

/// Replaces the two topmost stack values by `v`.
pub open spec fn pop2_push(st: EvalState, v: ByteCodeDataTypes) -> EvalState {
    EvalState { stack: st.stack.drop_last().drop_last().push(v), ..st }
}

/// The checked result of an arithmetic opcode on `b` (deeper) and `a` (top).
pub open spec fn arith_op(op: InstrV, b: i64, a: i64) -> Option<i64> {
    match op {
        InstrV::Add => b.checked_add(a),
        InstrV::Subtract => b.checked_sub(a),
        InstrV::Multiply => b.checked_mul(a),
        InstrV::Divide => b.checked_div(a),
        _ => None,
    }
}

/// The result of a comparison opcode on `b` (deeper) and `a` (top).
pub open spec fn cmp_op(op: InstrV, b: i64, a: i64) -> bool {
    match op {
        InstrV::LessThan => b < a,
        InstrV::LessThanEqual => b <= a,
        InstrV::GreaterThan => b > a,
        _ => b >= a,
    }
}

/// Moves the named endpoints out of `src`, left to right: the built
/// parameter map and what is left of `src`, or `None` if some name is
/// unbound (a run hitting that is stuck).
pub open spec fn take_params(
    names: Seq<Seq<char>>,
    src: Map<Seq<char>, ByteCodeMpscSyncTypes>,
    acc: Map<Seq<char>, ByteCodeMpscSyncTypes>,
) -> Option<(Map<Seq<char>, ByteCodeMpscSyncTypes>, Map<Seq<char>, ByteCodeMpscSyncTypes>)>
    decreases names.len(),
{
    if names.len() == 0 {
        Some((acc, src))
    } else if src.contains_key(names[0]) {
        take_params(names.drop_first(), src.remove(names[0]), acc.insert(names[0], src[names[0]]))
    } else {
        None
    }
}

/// Runs `code` to its end against `st`.
pub open spec fn run_seq(code: Seq<InstrV>, st: EvalState, funcs: FnTable, fuel: nat) -> Outcome
    decreases fuel, code.len(), 1nat,
{
    if code.len() == 0 {
        // End of the scan: report the top of the stack and the frame's
        // variables.
        if st.stack.len() > 0 {
            Outcome::Done {
                result: Ok(st.stack.last()),
                vars: st.vars,
                queues: st.queues,
                log: st.log,
            }
        } else {
            Outcome::Done {
                result: Err(ByteCodeError::UnknownByteCode),
                vars: st.vars,
                queues: st.queues,
                log: st.log,
            }
        }
    } else {
        let rest = code.drop_first();
        match code[0] {
            InstrV::LoadVar(n) => run_seq(
                rest,
                push_value(st, ByteCodeDataTypes::Integer64(n)),
                funcs,
                fuel,
            ),
            InstrV::WriteVar(x) => {
                if st.stack.len() == 0 {
                    hard(st, ByteCodeError::StackUnderflow)
                } else {
                    run_seq(
                        rest,
                        EvalState {
                            stack: st.stack.drop_last(),
                            vars: st.vars.insert(x, st.stack.last()),
                            ..st
                        },
                        funcs,
                        fuel,
                    )
                }
            },
            InstrV::ReadVar(x) => {
                if st.vars.contains_key(x) {
                    run_seq(rest, push_value(st, st.vars[x]), funcs, fuel)
                } else {
                    hard(st, ByteCodeError::StackUnderflow)
                }
            },
            InstrV::Add | InstrV::Subtract | InstrV::Multiply => {
                if st.stack.len() < 2 {
                    run_seq(rest, soft(st, ByteCodeError::StackUnderflow), funcs, fuel)
                } else {
                    let a = st.stack.last();
                    let b = st.stack[st.stack.len() - 2];
                    if a is Integer64 && b is Integer64 {
                        match arith_op(code[0], b->Integer64_0, a->Integer64_0) {
                            Some(r) => run_seq(
                                rest,
                                pop2_push(st, ByteCodeDataTypes::Integer64(r)),
                                funcs,
                                fuel,
                            ),
                            None => Outcome::Stuck { log: st.log },
                        }
                    } else {
                        Outcome::Stuck { log: st.log }
                    }
                }
            },
            InstrV::Divide => {
                if st.stack.len() == 0 {
                    // the zero-divisor test itself reads the top
                    Outcome::Stuck { log: st.log }
                } else if st.stack.last() == ByteCodeDataTypes::Integer64(0) {
                    run_seq(rest, soft(st, ByteCodeError::DivisionByZero), funcs, fuel)
                } else if st.stack.len() == 1 {
                    run_seq(rest, soft(st, ByteCodeError::StackUnderflow), funcs, fuel)
                } else {
                    let a = st.stack.last();
                    let b = st.stack[st.stack.len() - 2];
                    if a is Integer64 && b is Integer64 {
                        match arith_op(InstrV::Divide, b->Integer64_0, a->Integer64_0) {
                            Some(r) => run_seq(
                                rest,
                                pop2_push(st, ByteCodeDataTypes::Integer64(r)),
                                funcs,
                                fuel,
                            ),
                            None => Outcome::Stuck { log: st.log },
                        }
                    } else {
                        Outcome::Stuck { log: st.log }
                    }
                }
            },
            InstrV::LessThan | InstrV::LessThanEqual | InstrV::GreaterThan
                | InstrV::GreaterThanEqual => {
                if st.stack.len() < 2 {
                    run_seq(rest, soft(st, ByteCodeError::StackUnderflow), funcs, fuel)
                } else {
                    let a = st.stack.last();
                    let b = st.stack[st.stack.len() - 2];
                    if a is Integer64 && b is Integer64 {
                        run_seq(
                            rest,
                            pop2_push(
                                st,
                                ByteCodeDataTypes::Boolean(
                                    cmp_op(code[0], b->Integer64_0, a->Integer64_0),
                                ),
                            ),
                            funcs,
                            fuel,
                        )
                    } else {
                        Outcome::Stuck { log: st.log }
                    }
                }
            },
            InstrV::Print(x) => {
                if st.vars.contains_key(x) {
                    run_seq(
                        rest,
                        EvalState {
                            log: st.log.push(LogEvent::Printed(x, st.vars[x], false)),
                            ..st
                        },
                        funcs,
                        fuel,
                    )
                } else {
                    Outcome::Stuck { log: st.log }
                }
            },
            InstrV::PrintLn(x) => {
                if st.vars.contains_key(x) {
                    run_seq(
                        rest,
                        EvalState {
                            log: st.log.push(LogEvent::Printed(x, st.vars[x], true)),
                            ..st
                        },
                        funcs,
                        fuel,
                    )
                } else {
                    Outcome::Stuck { log: st.log }
                }
            },
            InstrV::Sleep(d) => run_seq(
                rest,
                EvalState { log: st.log.push(LogEvent::Slept(d)), ..st },
                funcs,
                fuel,
            ),
            InstrV::ReturnValue => {
                if st.stack.len() > 0 {
                    Outcome::Done {
                        result: Ok(st.stack.last()),
                        vars: Map::empty(),
                        queues: st.queues,
                        log: st.log,
                    }
                } else {
                    Outcome::Done {
                        result: Err(ByteCodeError::UnknownByteCode),
                        vars: Map::empty(),
                        queues: st.queues,
                        log: st.log,
                    }
                }
            },
            InstrV::Return => Outcome::Done {
                result: Ok(ByteCodeDataTypes::Unit),
                vars: Map::empty(),
                queues: st.queues,
                log: st.log,
            },
            InstrV::Loop(cond, body) => {
                match run_loop(cond, body, st, funcs, fuel) {
                    LoopOut::Next(st2) => run_seq(rest, st2, funcs, fuel),
                    LoopOut::Early(o) => o,
                }
            },
            InstrV::FunctionCall(f, ps) => {
                if fuel == 0 {
                    Outcome::OutOfFuel { log: st.log }
                } else {
                    match take_params(ps, st.params, Map::empty()) {
                        Option::None => Outcome::Stuck { log: st.log },
                        Option::Some((moved, remaining)) => {
                            if funcs.contains_key(f) {
                                match run_seq(
                                    funcs[f],
                                    sub_frame(st, moved),
                                    funcs,
                                    (fuel - 1) as nat,
                                ) {
                                    Outcome::Done { result, vars: _, queues, log } => {
                                        match result {
                                            Ok(v) => run_seq(
                                                rest,
                                                EvalState {
                                                    stack: st.stack.push(v),
                                                    params: remaining,
                                                    queues,
                                                    log,
                                                    ..st
                                                },
                                                funcs,
                                                fuel,
                                            ),
                                            Err(e) => Outcome::Done {
                                                result: Err(e),
                                                vars: Map::empty(),
                                                queues,
                                                log,
                                            },
                                        }
                                    },
                                    o => o,
                                }
                            } else {
                                Outcome::Stuck { log: st.log }
                            }
                        },
                    }
                }
            },
            InstrV::Spawn(body, ps) => {
                if fuel == 0 {
                    Outcome::OutOfFuel { log: st.log }
                } else {
                    match take_params(ps, st.chans, Map::empty()) {
                        Option::None => Outcome::Stuck { log: st.log },
                        Option::Some((moved, remaining)) => {
                            match run_seq(body, sub_frame(st, moved), funcs, (fuel - 1) as nat) {
                                Outcome::Done { result, vars: _, queues, log } => {
                                    match result {
                                        Ok(v) => run_seq(
                                            rest,
                                            EvalState {
                                                stack: st.stack.push(v),
                                                chans: remaining,
                                                queues,
                                                log,
                                                ..st
                                            },
                                            funcs,
                                            fuel,
                                        ),
                                        Err(e) => Outcome::Done {
                                            result: Err(e),
                                            vars: Map::empty(),
                                            queues,
                                            log,
                                        },
                                    }
                                },
                                o => o,
                            }
                        },
                    }
                }
            },
            InstrV::Channel(tx, rx) => {
                let id = st.queues.len() as usize;
                run_seq(
                    rest,
                    EvalState {
                        chans: st.chans.insert(tx, ByteCodeMpscSyncTypes::SendChannel(id)).insert(
                            rx,
                            ByteCodeMpscSyncTypes::ReceiveChannel(id),
                        ),
                        queues: st.queues.push(Seq::empty()),
                        ..st
                    },
                    funcs,
                    fuel,
                )
            },
            InstrV::SendChannel(x) => {
                if !st.params.contains_key(x) {
                    hard(st, ByteCodeError::ChannelNotFound)
                } else {
                    match st.params[x] {
                        ByteCodeMpscSyncTypes::SendChannel(id) => {
                            if st.stack.len() == 0 {
                                Outcome::Stuck { log: st.log }
                            } else {
                                match st.stack.last() {
                                    ByteCodeDataTypes::Integer64(v) => {
                                        if id < st.queues.len() {
                                            run_seq(
                                                rest,
                                                EvalState {
                                                    stack: st.stack.drop_last(),
                                                    queues: st.queues.update(
                                                        id as int,
                                                        st.queues[id as int].push(v),
                                                    ),
                                                    ..st
                                                },
                                                funcs,
                                                fuel,
                                            )
                                        } else {
                                            Outcome::Stuck { log: st.log }
                                        }
                                    },
                                    _ => hard(st, ByteCodeError::UnknownByteCode),
                                }
                            }
                        },
                        ByteCodeMpscSyncTypes::ReceiveChannel(_) => hard(
                            st,
                            ByteCodeError::ChannelNotFound,
                        ),
                    }
                }
            },
            InstrV::ReceiveChannel(x) => {
                if !st.params.contains_key(x) {
                    hard(st, ByteCodeError::ChannelNotFound)
                } else {
                    match st.params[x] {
                        ByteCodeMpscSyncTypes::ReceiveChannel(id) => {
                            if id < st.queues.len() && st.queues[id as int].len() > 0 {
                                run_seq(
                                    rest,
                                    EvalState {
                                        stack: st.stack.push(
                                            ByteCodeDataTypes::Integer64(st.queues[id as int][0]),
                                        ),
                                        queues: st.queues.update(
                                            id as int,
                                            st.queues[id as int].drop_first(),
                                        ),
                                        ..st
                                    },
                                    funcs,
                                    fuel,
                                )
                            } else {
                                // nothing will ever arrive: the frame blocks for good
                                Outcome::Stuck { log: st.log }
                            }
                        },
                        ByteCodeMpscSyncTypes::SendChannel(_) => hard(
                            st,
                            ByteCodeError::ChannelNotFound,
                        ),
                    }
                }
            },
            InstrV::Mutex(_) => run_seq(rest, soft(st, ByteCodeError::StackUnderflow), funcs, fuel),
        }
    }
}

/// Runs one loop to its end: evaluates the condition in a fresh sub-frame,
/// adopts its variables, and while the reported value is `Boolean(true)`
/// runs the body the same way; a reported value of any other kind leaves the
/// variables adopted and the loop spinning.
pub open spec fn run_loop(
    cond: Seq<InstrV>,
    body: Seq<InstrV>,
    st: EvalState,
    funcs: FnTable,
    fuel: nat,
) -> LoopOut
    decreases fuel, 0nat, 0nat,
{
    if fuel == 0 {
        LoopOut::Early(Outcome::OutOfFuel { log: st.log })
    } else {
        match run_seq(cond, sub_frame(st, Map::empty()), funcs, (fuel - 1) as nat) {
            Outcome::Done { result, vars, queues, log } => {
                let st1 = EvalState { vars, queues, log, ..st };
                match result {
                    Ok(ByteCodeDataTypes::Boolean(true)) => {
                        // The body's reported value — error or not — is
                        // discarded; only its variables are adopted.
                        match run_seq(body, sub_frame(st1, Map::empty()), funcs, (fuel - 1) as nat) {
                            Outcome::Done { result: _, vars: bvars, queues: bq, log: bl } => {
                                let st2 = EvalState { vars: bvars, queues: bq, log: bl, ..st1 };
                                run_loop(cond, body, st2, funcs, (fuel - 1) as nat)
                            },
                            o => LoopOut::Early(o),
                        }
                    },
                    Ok(ByteCodeDataTypes::Boolean(false)) => LoopOut::Next(st1),
                    Ok(_) => run_loop(cond, body, st1, funcs, (fuel - 1) as nat),
                    Err(e) => LoopOut::Early(
                        Outcome::Done { result: Err(e), vars: Map::empty(), queues, log },
                    ),
                }
            },
            o => LoopOut::Early(o),
        }
    }
}

/// A whole program: `code` against the given stack, variables and
/// parameters, with empty queues and an empty log.
pub open spec fn run_program(
    code: Seq<InstrV>,
    stack: Seq<ByteCodeDataTypes>,
    vars: Map<Seq<char>, ByteCodeDataTypes>,
    params: Map<Seq<char>, ByteCodeMpscSyncTypes>,
    funcs: FnTable,
    fuel: nat,
) -> Outcome {
    run_seq(
        code,
        EvalState {
            stack,
            vars,
            params,
            chans: Map::empty(),
            queues: Seq::empty(),
            log: Seq::empty(),
        },
        funcs,
        fuel,
    )
}

} // verus!

//! The execution engine: a stack machine over [`ByteCode`], proved to
//! report exactly what the big-step evaluator in [`crate::semantics`] says.
//!
//! Spawned bodies rendezvous with their spawning frame — the spawning frame
//! blocks until the body reports back — so a spawn behaves as a synchronous
//! call with an isolated copy of the variables, and channels behave as
//! first-in-first-out queues handed between frames by name.  The engine
//! executes them that way, against shared queue storage threaded through
//! every frame.

use vstd::prelude::*;

use crate::bytecode::{
    instr_view, instrs_view, lemma_instrs_view, lemma_log_view_push, lemma_queues_view_push,
    lemma_queues_view_update, log_view, names_view, queues_view, ByteCode, ByteCodeDataTypes,
    ByteCodeError, ByteCodeMpscSyncTypes, Event, InstrV, LogEvent,
};
use crate::semantics::{
    hard, pop2_push, push_value, run_loop, run_program, run_seq, soft, sub_frame, take_params,
    EvalState, FnTable, LoopOut, Outcome,
};
use crate::strmap::StrMap;

verus! {

broadcast use vstd::std_specs::vec::group_vec_axioms, lemma_instrs_view, lemma_log_view_push,
    lemma_queues_view_push, lemma_queues_view_update;

pub type VarMap = StrMap<ByteCodeDataTypes>;

pub type ParamMap = StrMap<ByteCodeMpscSyncTypes>;

pub type FnMap = StrMap<Vec<ByteCode>>;

/// The abstract function table an exec-level one denotes.
pub open spec fn fn_table_view(m: Map<Seq<char>, Vec<ByteCode>>) -> FnTable {
    m.map_values(|v: Vec<ByteCode>| instrs_view(v@))
}

pub broadcast proof fn lemma_fn_table_view_insert(
    m: Map<Seq<char>, Vec<ByteCode>>,
    k: Seq<char>,
    v: Vec<ByteCode>,
)
    ensures
        #[trigger] fn_table_view(m.insert(k, v)) == fn_table_view(m).insert(k, instrs_view(v@)),
{
    assert(fn_table_view(m.insert(k, v)) =~= fn_table_view(m).insert(k, instrs_view(v@)));
}

pub broadcast proof fn lemma_fn_table_view_empty(m: Map<Seq<char>, Vec<ByteCode>>)
    ensures
        m == Map::<Seq<char>, Vec<ByteCode>>::empty() ==> #[trigger] fn_table_view(m)
            == Map::<Seq<char>, Seq<InstrV>>::empty(),
{
    if m == Map::<Seq<char>, Vec<ByteCode>>::empty() {
        assert(fn_table_view(m) =~= Map::<Seq<char>, Seq<InstrV>>::empty());
    }
}

/// One frame's worth of machine state: the instruction sequence under
/// execution, its operand stack, its variables, the channel endpoints handed
/// over at creation, and the shared function table.
pub struct Program {
    code: Vec<ByteCode>,
    stack: Vec<ByteCodeDataTypes>,
    global_vars: VarMap,
    parameters: ParamMap,
    functions: FnMap,
}

/// What a run reports.
///
/// `Finished` carries the reported value or hard error together with the
/// final variable snapshot (empty on every hard-error path); `Stuck` means
/// the run reached an operation with no defined next step and would never
/// yield a result; `OutOfFuel` means the fuel bound was hit first.
#[derive(Debug)]
pub enum RunResult {
    Finished(Result<ByteCodeDataTypes, ByteCodeError>, VarMap),
    Stuck,
    OutOfFuel,
}

/// How a run's report, final queues and final log realize an abstract
/// outcome.
pub open spec fn outcome_matches(
    r: RunResult,
    queues: Seq<Seq<i64>>,
    log: Seq<LogEvent>,
    o: Outcome,
) -> bool {
    match o {
        Outcome::Done { result, vars, queues: q2, log: l2 } => r matches RunResult::Finished(
            res,
            v,
        ) && res == result && v@ == vars && queues == q2 && log == l2,
        Outcome::Stuck { log: l2 } => r is Stuck && log == l2,
        Outcome::OutOfFuel { log: l2 } => r is OutOfFuel && log == l2,
    }
}

/// How a run's report and final log realize an abstract outcome, with the
/// final queue contents out of view.
pub open spec fn reports(r: RunResult, log: Seq<LogEvent>, o: Outcome) -> bool {
    match o {
        Outcome::Done { result, vars, queues: _, log: l2 } => r matches RunResult::Finished(
            res,
            v,
        ) && res == result && v@ == vars && log == l2,
        Outcome::Stuck { log: l2 } => r is Stuck && log == l2,
        Outcome::OutOfFuel { log: l2 } => r is OutOfFuel && log == l2,
    }
}

/// Moves the named endpoints out of `src` into a fresh parameter map, as
/// `take_params` describes; `None` if some name is unbound.
fn move_params(names: &Vec<String>, src: &mut ParamMap) -> (r: Option<ParamMap>)
    ensures
        (match take_params(names_view(names@), old(src)@, Map::empty()) {
            Some(pair) => r matches Some(m) && m@ == pair.0 && final(src)@ == pair.1,
            None => r is None,
        }),
{
    let ghost nv = names_view(names@);
    let mut out: ParamMap = StrMap::new();
    let mut j: usize = 0;
    proof {
        assert(nv.skip(0) =~= nv);
    }
    while j < names.len()
        invariant
            j <= names@.len(),
            nv == names_view(names@),
            nv.len() == names@.len(),
            take_params(nv, old(src)@, Map::empty()) == take_params(
                nv.skip(j as int),
                src@,
                out@,
            ),
        decreases names@.len() - j,
    {
        proof {
            assert(nv.skip(j as int)[0] == names@[j as int]@);
            assert(nv.skip(j as int).drop_first() =~= nv.skip(j as int + 1));
        }
        match src.take(&names[j]) {
            Some(v) => {
                out.insert(names[j].clone(), v);
            },
            Option::None => {
                return None;
            },
        }
        j = j + 1;
    }
    proof {
        assert(nv.skip(names@.len() as int) =~= Seq::<Seq<char>>::empty());
    }
    Some(out)
}

/// Runs one frame to its end.  The queues and the log thread through and
/// come back; the report, the final queues and the final log together
/// realize exactly what `run_seq` says of this frame.
#[verifier::rlimit(50)]
fn run_frame(
    code: &Vec<ByteCode>,
    stack: Vec<ByteCodeDataTypes>,
    vars: VarMap,
    params: ParamMap,
    funcs: &FnMap,
    queues: Vec<Vec<i64>>,
    log: Vec<Event>,
    fuel: u64,
) -> (r: (RunResult, Vec<Vec<i64>>, Vec<Event>))
    ensures
        outcome_matches(
            r.0,
            queues_view(r.1@),
            log_view(r.2@),
            run_seq(
                instrs_view(code@),
                (EvalState {
                    stack: stack@,
                    vars: vars@,
                    params: params@,
                    chans: Map::empty(),
                    queues: queues_view(queues@),
                    log: log_view(log@),
                }),
                fn_table_view(funcs@),
                fuel as nat,
            ),
        ),
    decreases fuel,
{
    let mut stk = stack;
    let mut vls = vars;
    let mut pms = params;
    let mut qs = queues;
    let mut lg = log;
    let mut chans: ParamMap = StrMap::new();
    let ghost iv = instrs_view(code@);
    let ghost f_tbl = fn_table_view(funcs@);
    let ghost st0 = (EvalState {
        stack: stk@,
        vars: vls@,
        params: pms@,
        chans: Map::empty(),
        queues: queues_view(qs@),
        log: log_view(lg@),
    });
    proof {
        assert(iv.skip(0) =~= iv);
    }
    let mut i: usize = 0;
    while i < code.len()
        invariant
            i <= code@.len(),
            iv == instrs_view(code@),
            iv.len() == code@.len(),
            f_tbl == fn_table_view(funcs@),
            st0 == (EvalState {
                stack: stack@,
                vars: vars@,
                params: params@,
                chans: Map::empty(),
                queues: queues_view(queues@),
                log: log_view(log@),
            }),
            run_seq(iv, st0, f_tbl, fuel as nat) == run_seq(
                iv.skip(i as int),
                (EvalState {
                    stack: stk@,
                    vars: vls@,
                    params: pms@,
                    chans: chans@,
                    queues: queues_view(qs@),
                    log: log_view(lg@),
                }),
                f_tbl,
                fuel as nat,
            ),
        decreases code@.len() - i,
    {
        let ghost pre = (EvalState {
            stack: stk@,
            vars: vls@,
            params: pms@,
            chans: chans@,
            queues: queues_view(qs@),
            log: log_view(lg@),
        });
        proof {
            assert(iv.skip(i as int)[0] == iv[i as int]);
            assert(iv.skip(i as int).drop_first() =~= iv.skip(i as int + 1));
            assert(iv[i as int] == instr_view(code@[i as int]));
        }
        match &code[i] {
            ByteCode::LoadVar(n) => {
                stk.push(ByteCodeDataTypes::Integer64(*n));
                proof {
                    assert(run_seq(iv.skip(i as int), pre, f_tbl, fuel as nat) == run_seq(
                        iv.skip(i as int + 1),
                        push_value(pre, ByteCodeDataTypes::Integer64(*n)),
                        f_tbl,
                        fuel as nat,
                    ));
                }
            },
            ByteCode::WriteVar(x) => {
                match stk.pop() {
                    Some(v) => {
                        vls.insert(x.clone(), v);
                    },
                    Option::None => {
                        return (
                            RunResult::Finished(Err(ByteCodeError::StackUnderflow), StrMap::new()),
                            qs,
                            lg,
                        );
                    },
                }
            },
            ByteCode::ReadVar(x) => {
                match vls.get(x) {
                    Some(v) => {
                        let value = *v;
                        stk.push(value);
                    },
                    Option::None => {
                        return (
                            RunResult::Finished(Err(ByteCodeError::StackUnderflow), StrMap::new()),
                            qs,
                            lg,
                        );
                    },
                }
            },
            ByteCode::Add | ByteCode::Subtract | ByteCode::Multiply => {
                if stk.len() < 2 {
                    lg.push(Event::SoftFault(ByteCodeError::StackUnderflow));
                } else {
                    let a = stk.pop().unwrap();
                    let b = stk.pop().unwrap();
                    match (a, b) {
                        (ByteCodeDataTypes::Integer64(av), ByteCodeDataTypes::Integer64(bv)) => {
                            let res = match &code[i] {
                                ByteCode::Add => bv.checked_add(av),
                                ByteCode::Subtract => bv.checked_sub(av),
                                _ => bv.checked_mul(av),
                            };
                            match res {
                                Some(rv) => {
                                    stk.push(ByteCodeDataTypes::Integer64(rv));
                                },
                                Option::None => {
                                    return (RunResult::Stuck, qs, lg);
                                },
                            }
                        },
                        _ => {
                            return (RunResult::Stuck, qs, lg);
                        },
                    }
                }
            },
            ByteCode::Divide => {
                if stk.len() == 0 {
                    return (RunResult::Stuck, qs, lg);
                }
                let top = stk[stk.len() - 1];
                if top == ByteCodeDataTypes::Integer64(0) {
                    lg.push(Event::SoftFault(ByteCodeError::DivisionByZero));
                } else if stk.len() == 1 {
                    lg.push(Event::SoftFault(ByteCodeError::StackUnderflow));
                } else {
                    let a = stk.pop().unwrap();
                    let b = stk.pop().unwrap();
                    match (a, b) {
                        (ByteCodeDataTypes::Integer64(av), ByteCodeDataTypes::Integer64(bv)) => {
                            match bv.checked_div(av) {
                                Some(rv) => {
                                    stk.push(ByteCodeDataTypes::Integer64(rv));
                                },
                                Option::None => {
                                    return (RunResult::Stuck, qs, lg);
                                },
                            }
                        },
                        _ => {
                            return (RunResult::Stuck, qs, lg);
                        },
                    }
                }
            },
            ByteCode::LessThan | ByteCode::LessThanEqual | ByteCode::GreaterThan
                | ByteCode::GreaterThanEqual => {
                if stk.len() < 2 {
                    lg.push(Event::SoftFault(ByteCodeError::StackUnderflow));
                } else {
                    let a = stk.pop().unwrap();
                    let b = stk.pop().unwrap();
                    match (a, b) {
                        (ByteCodeDataTypes::Integer64(av), ByteCodeDataTypes::Integer64(bv)) => {
                            let res = match &code[i] {
                                ByteCode::LessThan => bv < av,
                                ByteCode::LessThanEqual => bv <= av,
                                ByteCode::GreaterThan => bv > av,
                                _ => bv >= av,
                            };
                            stk.push(ByteCodeDataTypes::Boolean(res));
                        },
                        _ => {
                            return (RunResult::Stuck, qs, lg);
                        },
                    }
                }
            },
            ByteCode::Print(x) => {
                match vls.get(x) {
                    Some(v) => {
                        let value = *v;
                        lg.push(Event::Printed(x.clone(), value, false));
                    },
                    Option::None => {
                        return (RunResult::Stuck, qs, lg);
                    },
                }
            },
            ByteCode::PrintLn(x) => {
                match vls.get(x) {
                    Some(v) => {
                        let value = *v;
                        lg.push(Event::Printed(x.clone(), value, true));
                    },
                    Option::None => {
                        return (RunResult::Stuck, qs, lg);
                    },
                }
            },
            ByteCode::Sleep(d) => {
                lg.push(Event::Slept(*d));
            },
            ByteCode::ReturnValue => {
                match stk.pop() {
                    Some(v) => {
                        return (RunResult::Finished(Ok(v), StrMap::new()), qs, lg);
                    },
                    Option::None => {
                        return (
                            RunResult::Finished(Err(ByteCodeError::UnknownByteCode), StrMap::new()),
                            qs,
                            lg,
                        );
                    },
                }
            },
            ByteCode::Return => {
                return (
                    RunResult::Finished(Ok(ByteCodeDataTypes::Unit), StrMap::new()),
                    qs,
                    lg,
                );
            },
            ByteCode::Loop(cv, bv) => {
                let ghost cv_iv = instrs_view(cv@);
                let ghost bv_iv = instrs_view(bv@);
                let ghost entry_st = pre;
                let mut lf: u64 = fuel;
                loop
                    invariant_except_break
                        run_loop(cv_iv, bv_iv, entry_st, f_tbl, fuel as nat) == run_loop(
                            cv_iv,
                            bv_iv,
                            (EvalState {
                                stack: stk@,
                                vars: vls@,
                                params: pms@,
                                chans: chans@,
                                queues: queues_view(qs@),
                                log: log_view(lg@),
                            }),
                            f_tbl,
                            lf as nat,
                        ),
                    invariant
                        iv == instrs_view(code@),
                        iv.len() == code@.len(),
                        f_tbl == fn_table_view(funcs@),
                        st0 == (EvalState {
                            stack: stack@,
                            vars: vars@,
                            params: params@,
                            chans: Map::empty(),
                            queues: queues_view(queues@),
                            log: log_view(log@),
                        }),
                        i < code@.len(),
                        lf <= fuel,
                        iv.skip(i as int)[0] == InstrV::Loop(cv_iv, bv_iv),
                        iv.skip(i as int).drop_first() =~= iv.skip(i as int + 1),
                        cv_iv == instrs_view(cv@),
                        bv_iv == instrs_view(bv@),
                        run_seq(iv, st0, f_tbl, fuel as nat) == run_seq(
                            iv.skip(i as int),
                            entry_st,
                            f_tbl,
                            fuel as nat,
                        ),
                        stk@ == entry_st.stack,
                        pms@ == entry_st.params,
                        chans@ == entry_st.chans,
                    ensures
                        run_seq(iv, st0, f_tbl, fuel as nat) == run_seq(
                            iv.skip(i as int + 1),
                            (EvalState {
                                stack: stk@,
                                vars: vls@,
                                params: pms@,
                                chans: chans@,
                                queues: queues_view(qs@),
                                log: log_view(lg@),
                            }),
                            f_tbl,
                            fuel as nat,
                        ),
                    decreases lf,
                {
                    let ghost loop_pre = (EvalState {
                        stack: stk@,
                        vars: vls@,
                        params: pms@,
                        chans: chans@,
                        queues: queues_view(qs@),
                        log: log_view(lg@),
                    });
                    if lf == 0 {
                        proof {
                            assert(run_loop(cv_iv, bv_iv, loop_pre, f_tbl, lf as nat)
                                == LoopOut::Early(Outcome::OutOfFuel { log: log_view(lg@) }));
                            assert(run_seq(iv.skip(i as int), entry_st, f_tbl, fuel as nat)
                                == Outcome::OutOfFuel { log: log_view(lg@) });
                        }
                        return (RunResult::OutOfFuel, qs, lg);
                    }
                    let dup = vls.duplicate();
                    let (cr, q2, l2) = run_frame(
                        cv,
                        Vec::new(),
                        dup,
                        StrMap::new(),
                        funcs,
                        qs,
                        lg,
                        lf - 1,
                    );
                    let ghost cond_out = run_seq(
                        cv_iv,
                        sub_frame(loop_pre, Map::empty()),
                        f_tbl,
                        (lf - 1) as nat,
                    );
                    proof {
                        assert(outcome_matches(cr, queues_view(q2@), log_view(l2@), cond_out));
                    }
                    qs = q2;
                    lg = l2;
                    match cr {
                        RunResult::Finished(res, cvars) => {
                            vls = cvars;
                            let ghost st1 = (EvalState {
                                stack: stk@,
                                vars: vls@,
                                params: pms@,
                                chans: chans@,
                                queues: queues_view(qs@),
                                log: log_view(lg@),
                            });
                            match res {
                                Ok(ByteCodeDataTypes::Boolean(true)) => {
                                    let dup2 = vls.duplicate();
                                    let (br, q3, l3) = run_frame(
                                        bv,
                                        Vec::new(),
                                        dup2,
                                        StrMap::new(),
                                        funcs,
                                        qs,
                                        lg,
                                        lf - 1,
                                    );
                                    let ghost body_out = run_seq(
                                        bv_iv,
                                        sub_frame(st1, Map::empty()),
                                        f_tbl,
                                        (lf - 1) as nat,
                                    );
                                    proof {
                                        assert(outcome_matches(
                                            br,
                                            queues_view(q3@),
                                            log_view(l3@),
                                            body_out,
                                        ));
                                    }
                                    qs = q3;
                                    lg = l3;
                                    match br {
                                        RunResult::Finished(_bres, bvars) => {
                                            vls = bvars;
                                            let ghost st2 = (EvalState {
                                                stack: stk@,
                                                vars: vls@,
                                                params: pms@,
                                                chans: chans@,
                                                queues: queues_view(qs@),
                                                log: log_view(lg@),
                                            });
                                            proof {
                                                assert(run_loop(
                                                    cv_iv,
                                                    bv_iv,
                                                    loop_pre,
                                                    f_tbl,
                                                    lf as nat,
                                                ) == run_loop(
                                                    cv_iv,
                                                    bv_iv,
                                                    st2,
                                                    f_tbl,
                                                    (lf - 1) as nat,
                                                ));
                                            }
                                            lf = lf - 1;
                                        },
                                        RunResult::Stuck => {
                                            proof {
                                                assert(run_loop(
                                                    cv_iv,
                                                    bv_iv,
                                                    loop_pre,
                                                    f_tbl,
                                                    lf as nat,
                                                ) == LoopOut::Early(Outcome::Stuck {
                                                    log: log_view(lg@),
                                                }));
                                            }
                                            return (RunResult::Stuck, qs, lg);
                                        },
                                        RunResult::OutOfFuel => {
                                            proof {
                                                assert(run_loop(
                                                    cv_iv,
                                                    bv_iv,
                                                    loop_pre,
                                                    f_tbl,
                                                    lf as nat,
                                                ) == LoopOut::Early(Outcome::OutOfFuel {
                                                    log: log_view(lg@),
                                                }));
                                            }
                                            return (RunResult::OutOfFuel, qs, lg);
                                        },
                                    }
                                },
                                Ok(ByteCodeDataTypes::Boolean(false)) => {
                                    proof {
                                        assert(run_loop(cv_iv, bv_iv, loop_pre, f_tbl, lf as nat)
                                            == LoopOut::Next(st1));
                                        assert(run_seq(
                                            iv.skip(i as int),
                                            entry_st,
                                            f_tbl,
                                            fuel as nat,
                                        ) == run_seq(
                                            iv.skip(i as int + 1),
                                            st1,
                                            f_tbl,
                                            fuel as nat,
                                        ));
                                    }
                                    break;
                                },
                                Ok(_) => {
                                    proof {
                                        assert(run_loop(cv_iv, bv_iv, loop_pre, f_tbl, lf as nat)
                                            == run_loop(
                                            cv_iv,
                                            bv_iv,
                                            st1,
                                            f_tbl,
                                            (lf - 1) as nat,
                                        ));
                                    }
                                    lf = lf - 1;
                                },
                                Err(e) => {
                                    proof {
                                        assert(run_loop(cv_iv, bv_iv, loop_pre, f_tbl, lf as nat)
                                            == LoopOut::Early(Outcome::Done {
                                            result: Err(e),
                                            vars: Map::empty(),
                                            queues: queues_view(qs@),
                                            log: log_view(lg@),
                                        }));
                                    }
                                    return (
                                        RunResult::Finished(Err(e), StrMap::new()),
                                        qs,
                                        lg,
                                    );
                                },
                            }
                        },
                        RunResult::Stuck => {
                            proof {
                                assert(run_loop(cv_iv, bv_iv, loop_pre, f_tbl, lf as nat)
                                    == LoopOut::Early(Outcome::Stuck { log: log_view(lg@) }));
                            }
                            return (RunResult::Stuck, qs, lg);
                        },
                        RunResult::OutOfFuel => {
                            proof {
                                assert(run_loop(cv_iv, bv_iv, loop_pre, f_tbl, lf as nat)
                                    == LoopOut::Early(Outcome::OutOfFuel { log: log_view(lg@) }));
                            }
                            return (RunResult::OutOfFuel, qs, lg);
                        },
                    }
                }
            },
            ByteCode::FunctionCall(f, ps) => {
                if fuel == 0 {
                    return (RunResult::OutOfFuel, qs, lg);
                }
                match move_params(ps, &mut pms) {
                    Some(moved) => {
                        match funcs.get(f) {
                            Some(body) => {
                                let dup = vls.duplicate();
                                let (fr, q2, l2) = run_frame(
                                    body,
                                    Vec::new(),
                                    dup,
                                    moved,
                                    funcs,
                                    qs,
                                    lg,
                                    fuel - 1,
                                );
                                qs = q2;
                                lg = l2;
                                match fr {
                                    RunResult::Finished(res, _fvars) => {
                                        match res {
                                            Ok(v) => {
                                                stk.push(v);
                                            },
                                            Err(e) => {
                                                return (
                                                    RunResult::Finished(Err(e), StrMap::new()),
                                                    qs,
                                                    lg,
                                                );
                                            },
                                        }
                                    },
                                    RunResult::Stuck => {
                                        return (RunResult::Stuck, qs, lg);
                                    },
                                    RunResult::OutOfFuel => {
                                        return (RunResult::OutOfFuel, qs, lg);
                                    },
                                }
                            },
                            Option::None => {
                                return (RunResult::Stuck, qs, lg);
                            },
                        }
                    },
                    Option::None => {
                        return (RunResult::Stuck, qs, lg);
                    },
                }
            },
            ByteCode::Spawn(bv, ps) => {
                if fuel == 0 {
                    return (RunResult::OutOfFuel, qs, lg);
                }
                match move_params(ps, &mut chans) {
                    Some(moved) => {
                        let dup = vls.duplicate();
                        let (sr, q2, l2) = run_frame(
                            bv,
                            Vec::new(),
                            dup,
                            moved,
                            funcs,
                            qs,
                            lg,
                            fuel - 1,
                        );
                        qs = q2;
                        lg = l2;
                        match sr {
                            RunResult::Finished(res, _svars) => {
                                match res {
                                    Ok(v) => {
                                        stk.push(v);
                                    },
                                    Err(e) => {
                                        return (
                                            RunResult::Finished(Err(e), StrMap::new()),
                                            qs,
                                            lg,
                                        );
                                    },
                                }
                            },
                            RunResult::Stuck => {
                                return (RunResult::Stuck, qs, lg);
                            },
                            RunResult::OutOfFuel => {
                                return (RunResult::OutOfFuel, qs, lg);
                            },
                        }
                    },
                    Option::None => {
                        return (RunResult::Stuck, qs, lg);
                    },
                }
            },
            ByteCode::Channel(tx, rx) => {
                let id = qs.len();
                let fresh: Vec<i64> = Vec::new();
                qs.push(fresh);
                chans.insert(tx.clone(), ByteCodeMpscSyncTypes::SendChannel(id));
                chans.insert(rx.clone(), ByteCodeMpscSyncTypes::ReceiveChannel(id));
            },
            ByteCode::SendChannel(x) => {
                let endpoint = match pms.get(x) {
                    Some(e) => Some(*e),
                    Option::None => None,
                };
                match endpoint {
                    Some(ByteCodeMpscSyncTypes::SendChannel(id)) => {
                        if stk.len() == 0 {
                            return (RunResult::Stuck, qs, lg);
                        }
                        let v = stk.pop().unwrap();
                        match v {
                            ByteCodeDataTypes::Integer64(n) => {
                                if id < qs.len() {
                                    let ghost q0 = qs@;
                                    let mut q = qs.remove(id);
                                    q.push(n);
                                    qs.insert(id, q);
                                    proof {
                                        assert(q@ =~= q0[id as int]@.push(n));
                                        assert(qs@ =~= q0.update(id as int, q));
                                    }
                                } else {
                                    return (RunResult::Stuck, qs, lg);
                                }
                            },
                            _ => {
                                return (
                                    RunResult::Finished(
                                        Err(ByteCodeError::UnknownByteCode),
                                        StrMap::new(),
                                    ),
                                    qs,
                                    lg,
                                );
                            },
                        }
                    },
                    Some(ByteCodeMpscSyncTypes::ReceiveChannel(_)) => {
                        return (
                            RunResult::Finished(Err(ByteCodeError::ChannelNotFound), StrMap::new()),
                            qs,
                            lg,
                        );
                    },
                    Option::None => {
                        return (
                            RunResult::Finished(Err(ByteCodeError::ChannelNotFound), StrMap::new()),
                            qs,
                            lg,
                        );
                    },
                }
            },
            ByteCode::ReceiveChannel(x) => {
                let endpoint = match pms.get(x) {
                    Some(e) => Some(*e),
                    Option::None => None,
                };
                match endpoint {
                    Some(ByteCodeMpscSyncTypes::ReceiveChannel(id)) => {
                        if id < qs.len() {
                            if qs[id].len() > 0 {
                                let ghost q0 = qs@;
                                let mut q = qs.remove(id);
                                let n = q.remove(0);
                                qs.insert(id, q);
                                stk.push(ByteCodeDataTypes::Integer64(n));
                                proof {
                                    assert(q@ =~= q0[id as int]@.drop_first());
                                    assert(qs@ =~= q0.update(id as int, q));
                                }
                            } else {
                                return (RunResult::Stuck, qs, lg);
                            }
                        } else {
                            return (RunResult::Stuck, qs, lg);
                        }
                    },
                    Some(ByteCodeMpscSyncTypes::SendChannel(_)) => {
                        return (
                            RunResult::Finished(Err(ByteCodeError::ChannelNotFound), StrMap::new()),
                            qs,
                            lg,
                        );
                    },
                    Option::None => {
                        return (
                            RunResult::Finished(Err(ByteCodeError::ChannelNotFound), StrMap::new()),
                            qs,
                            lg,
                        );
                    },
                }
            },
            ByteCode::Mutex(_) => {
                lg.push(Event::SoftFault(ByteCodeError::StackUnderflow));
            },
        }
        i = i + 1;
    }
    proof {
        assert(iv.skip(code@.len() as int) =~= Seq::<InstrV>::empty());
    }
    match stk.pop() {
        Some(v) => (RunResult::Finished(Ok(v), vls), qs, lg),
        Option::None => (
            RunResult::Finished(Err(ByteCodeError::UnknownByteCode), vls),
            qs,
            lg,
        ),
    }
}

/// Interprets `code` against the given stack, variables, parameters and
/// function table, with `fuel` bounding sub-frame depth and loop rounds.
/// Reports the outcome together with everything the run wrote to the
/// logging sink.
pub fn execute(
    code: Vec<ByteCode>,
    stack: Vec<ByteCodeDataTypes>,
    global_vars: VarMap,
    parameters: ParamMap,
    functions: FnMap,
    fuel: u64,
) -> (r: (RunResult, Vec<Event>))
    ensures
        reports(
            r.0,
            log_view(r.1@),
            run_program(
                instrs_view(code@),
                stack@,
                global_vars@,
                parameters@,
                fn_table_view(functions@),
                fuel as nat,
            ),
        ),
{
    let program = Program { code, stack, global_vars, parameters, functions };
    let Program { code, stack, global_vars, parameters, functions } = program;
    let queues: Vec<Vec<i64>> = Vec::new();
    let log: Vec<Event> = Vec::new();
    proof {
        assert(queues_view(queues@) =~= Seq::<Seq<i64>>::empty());
        assert(log_view(log@) =~= Seq::<LogEvent>::empty());
    }
    let (r, _queues, log) = run_frame(
        &code,
        stack,
        global_vars,
        parameters,
        &functions,
        queues,
        log,
        fuel,
    );
    (r, log)
}

} // verus!

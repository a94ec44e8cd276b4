//! The assembler: turns script text — one instruction per line, tokens
//! separated by blanks — into an entry instruction sequence and a function
//! table, exactly as the specification functions here describe.
//!
//! A line whose first token is no known mnemonic is silently skipped, and so
//! is a line that is malformed for its mnemonic (a missing or unparsable
//! argument, or a block end with no open block).

use vstd::prelude::*;

use crate::bytecode::{
    instrs_view, lemma_instrs_view, lemma_instrs_view_concat, lemma_instrs_view_push,
    lemma_names_view_concat, lemma_names_view_push, names_view, ByteCode, InstrV,
};
use crate::interpreter::{
    fn_table_view, lemma_fn_table_view_empty, lemma_fn_table_view_insert, FnMap,
};
use crate::strmap::StrMap;
use vstd::std_specs::iter::IteratorSpec;

verus! {

broadcast use vstd::std_specs::vec::group_vec_axioms, vstd::string::group_string_axioms,
    lemma_instrs_view, lemma_instrs_view_concat, lemma_instrs_view_push, lemma_names_view_concat,
    lemma_names_view_push, lemma_fn_table_view_empty, lemma_fn_table_view_insert;

/// Relies on String::push: appends the given character to the end of the
/// string.
pub assume_specification[ String::push ](s: &mut String, ch: char)
    ensures
        final(s)@ == old(s)@.push(ch),
;

/// The characters that separate tokens within a line.
pub open spec fn is_blank(c: char) -> bool {
    c == ' ' || c == '\t' || c == '\r' || c == '\u{b}' || c == '\u{c}'
}

/// One pass over the script: `tok` is the token being gathered, `line` the
/// tokens of the line being gathered, `out` the finished lines.  Lines with
/// no tokens are not kept.
pub open spec fn scan_lines(
    s: Seq<char>,
    tok: Seq<char>,
    line: Seq<Seq<char>>,
    out: Seq<Seq<Seq<char>>>,
) -> Seq<Seq<Seq<char>>>
    decreases s.len(),
{
    if s.len() == 0 {
        let line1 = if tok.len() > 0 {
            line.push(tok)
        } else {
            line
        };
        if line1.len() > 0 {
            out.push(line1)
        } else {
            out
        }
    } else if s[0] == '\n' {
        let line1 = if tok.len() > 0 {
            line.push(tok)
        } else {
            line
        };
        let out1 = if line1.len() > 0 {
            out.push(line1)
        } else {
            out
        };
        scan_lines(s.drop_first(), Seq::empty(), Seq::empty(), out1)
    } else if is_blank(s[0]) {
        let line1 = if tok.len() > 0 {
            line.push(tok)
        } else {
            line
        };
        scan_lines(s.drop_first(), Seq::empty(), line1, out)
    } else {
        scan_lines(s.drop_first(), tok.push(s[0]), line, out)
    }
}

/// The token lines of a script.
pub open spec fn token_lines(s: Seq<char>) -> Seq<Seq<Seq<char>>> {
    scan_lines(s, Seq::empty(), Seq::empty(), Seq::empty())
}

pub open spec fn is_digit(c: char) -> bool {
    48 <= c as u32 && c as u32 <= 57
}

pub open spec fn all_digits(s: Seq<char>) -> bool {
    forall|i: int| 0 <= i < s.len() ==> is_digit(#[trigger] s[i])
}

/// The value of a digit string, most significant digit first.
pub open spec fn digits_val(s: Seq<char>) -> int
    decreases s.len(),
{
    if s.len() == 0 {
        0
    } else {
        digits_val(s.drop_last()) * 10 + (s.last() as u32 - 48)
    }
}

/// What the token denotes as a 64-bit signed integer: an optional sign
/// followed by one or more digits, within range; anything else is nothing.
pub open spec fn i64_token_val(s: Seq<char>) -> Option<i64> {
    let body = if s.len() > 0 && (s[0] == '+' || s[0] == '-') {
        s.drop_first()
    } else {
        s
    };
    let neg = s.len() > 0 && s[0] == '-';
    if body.len() > 0 && all_digits(body) {
        let v = if neg {
            -digits_val(body)
        } else {
            digits_val(body)
        };
        if i64::MIN <= v <= i64::MAX {
            Some(v as i64)
        } else {
            None
        }
    } else {
        None
    }
}

/// What the token denotes as a 64-bit unsigned integer.
pub open spec fn u64_token_val(s: Seq<char>) -> Option<u64> {
    let body = if s.len() > 0 && s[0] == '+' {
        s.drop_first()
    } else {
        s
    };
    if body.len() > 0 && all_digits(body) && digits_val(body) <= u64::MAX {
        Some(digits_val(body) as u64)
    } else {
        None
    }
}

/// The token-line view of gathered lines.
pub open spec fn lines_view(s: Seq<Vec<String>>) -> Seq<Seq<Seq<char>>> {
    Seq::new(s.len(), |i: int| names_view(s[i]@))
}

pub broadcast proof fn lemma_lines_view_push(s: Seq<Vec<String>>, x: Vec<String>)
    ensures
        #[trigger] lines_view(s.push(x)) == lines_view(s).push(names_view(x@)),
{
    assert(lines_view(s.push(x)) =~= lines_view(s).push(names_view(x@)));
}

fn blank_char(c: char) -> (r: bool)
    ensures
        r == is_blank(c),
{
    c == ' ' || c == '\t' || c == '\r' || c == '\u{b}' || c == '\u{c}'
}

/// Splits the script into its token lines.
fn tokenize(script: &str) -> (r: Vec<Vec<String>>)
    ensures
        lines_view(r@) == token_lines(script@),
{
    broadcast use lemma_lines_view_push;

    let mut it = script.chars();
    let mut tok = String::new();
    let mut line: Vec<String> = Vec::new();
    let mut out: Vec<Vec<String>> = Vec::new();
    proof {
        assert(names_view(line@) =~= Seq::<Seq<char>>::empty());
        assert(lines_view(out@) =~= Seq::<Seq<Seq<char>>>::empty());
    }
    loop
        invariant
            it.decrease() is Some,
            token_lines(script@) == scan_lines(
                it.remaining(),
                tok@,
                names_view(line@),
                lines_view(out@),
            ),
        ensures
            it.remaining().len() == 0,
            token_lines(script@) == scan_lines(
                it.remaining(),
                tok@,
                names_view(line@),
                lines_view(out@),
            ),
        decreases it.decrease()->0,
    {
        let ghost rem0 = it.remaining();
        let ghost t0 = tok@;
        let ghost l0 = names_view(line@);
        let ghost o0 = lines_view(out@);
        match it.next() {
            Some(c) => {
                if c == '\n' {
                    if !tok.as_str().is_empty() {
                        line.push(tok);
                        tok = String::new();
                    }
                    if line.len() > 0 {
                        out.push(line);
                        line = Vec::new();
                    }
                    proof {
                        assert(c == rem0[0]);
                        assert(tok@ =~= Seq::<char>::empty());
                        assert(names_view(line@) =~= Seq::<Seq<char>>::empty());
                        let line1 = if t0.len() > 0 {
                            l0.push(t0)
                        } else {
                            l0
                        };
                        let out1 = if line1.len() > 0 {
                            o0.push(line1)
                        } else {
                            o0
                        };
                        assert(lines_view(out@) == out1);
                        assert(scan_lines(rem0, t0, l0, o0) == scan_lines(
                            rem0.drop_first(),
                            Seq::empty(),
                            Seq::empty(),
                            out1,
                        ));
                        assert(scan_lines(rem0, t0, l0, o0) == scan_lines(
                            rem0.drop_first(),
                            tok@,
                            names_view(line@),
                            lines_view(out@),
                        ));
                    }
                } else if blank_char(c) {
                    if !tok.as_str().is_empty() {
                        line.push(tok);
                        tok = String::new();
                    }
                    proof {
                        assert(tok@ =~= Seq::<char>::empty());
                        assert(scan_lines(rem0, t0, l0, o0) == scan_lines(
                            rem0.drop_first(),
                            tok@,
                            names_view(line@),
                            lines_view(out@),
                        ));
                    }
                } else {
                    tok.push(c);
                    proof {
                        assert(scan_lines(rem0, t0, l0, o0) == scan_lines(
                            rem0.drop_first(),
                            tok@,
                            names_view(line@),
                            lines_view(out@),
                        ));
                    }
                }
                proof {
                    assert(rem0.len() > 0 && c == rem0[0] && it.remaining() == rem0.drop_first());
                    if tok@.len() == 0 {
                        assert(tok@ =~= Seq::<char>::empty());
                    }
                    if line@.len() == 0 {
                        assert(names_view(line@) =~= Seq::<Seq<char>>::empty());
                    }
                    assert(scan_lines(rem0, t0, l0, o0) == scan_lines(
                        it.remaining(),
                        tok@,
                        names_view(line@),
                        lines_view(out@),
                    ));
                }
            },
            Option::None => {
                break;
            },
        }
    }
    if !tok.as_str().is_empty() {
        line.push(tok);
    }
    if line.len() > 0 {
        out.push(line);
    }
    proof {
        if tok@.len() == 0 {
            assert(tok@ =~= Seq::<char>::empty());
        }
        if line@.len() == 0 {
            assert(names_view(line@) =~= Seq::<Seq<char>>::empty());
        }
    }
    out
}

/// Scans the digits of `body` left to right through `it`, which must hold
/// exactly `body`'s characters.  Reports the exact value while it stays at
/// or below `cap`, or that it passed `cap`, or that a non-digit occurred.
enum DigitScan {
    Exact(u128),
    PastCap,
    NotDigits,
}

fn scan_digits(iter: std::str::Chars<'_>, cap: u128, Ghost(body): Ghost<Seq<char>>) -> (r: (
    DigitScan,
    bool,
))
    requires
        iter.remaining() == body,
        iter.decrease() is Some,
        cap <= 0xffff_ffff_ffff_ffff_ffffu128,
    ensures
        r.1 == (body.len() > 0),
        (match r.0 {
            DigitScan::Exact(v) => all_digits(body) && v == digits_val(body) && v <= cap,
            DigitScan::PastCap => all_digits(body) && digits_val(body) > cap,
            DigitScan::NotDigits => !all_digits(body),
        }),
{
    let mut it = iter;
    let mut acc: u128 = 0;
    let mut over = false;
    let mut saw = false;
    let ghost mut k: int = 0;
    loop
        invariant
            it.decrease() is Some,
            it.remaining() == body.skip(k),
            0 <= k <= body.len(),
            all_digits(body.take(k)),
            saw == (k > 0),
            cap <= 0xffff_ffff_ffff_ffff_ffffu128,
            !over ==> acc == digits_val(body.take(k)) && acc <= cap,
            over ==> digits_val(body.take(k)) > cap,
        ensures
            it.remaining().len() == 0,
            k == body.len(),
            saw == (k > 0),
            all_digits(body.take(k)),
            !over ==> acc == digits_val(body.take(k)) && acc <= cap,
            over ==> digits_val(body.take(k)) > cap,
        decreases it.decrease()->0,
    {
        let ghost rem0 = it.remaining();
        match it.next() {
            Some(c) => {
                saw = true;
                proof {
                    assert(rem0.len() > 0);
                    assert(c == rem0[0]);
                    assert(it.remaining() == rem0.drop_first());
                }
                let cu = c as u32;
                if 48 <= cu && cu <= 57 {
                    proof {
                        assert(body.take(k + 1).drop_last() =~= body.take(k));
                        assert(body.take(k + 1).last() == body[k]);
                        assert(body[k] == c);
                    }
                    if !over {
                        acc = acc * 10 + ((cu - 48) as u128);
                        if acc > cap {
                            over = true;
                        }
                    } else {
                        proof {
                            assert(digits_val(body.take(k + 1)) == digits_val(body.take(k)) * 10
                                + (c as u32 - 48));
                        }
                    }
                    proof {
                        k = k + 1;
                        assert(body.skip(k) =~= rem0.drop_first());
                    }
                } else {
                    proof {
                        assert(body[k] == c);
                        assert(!is_digit(body[k]));
                    }
                    return (DigitScan::NotDigits, true);
                }
            },
            Option::None => {
                proof {
                    assert(body.skip(k) =~= Seq::<char>::empty());
                    assert(k == body.len());
                }
                break;
            },
        }
    }
    proof {
        assert(body.take(body.len() as int) =~= body);
    }
    if over {
        (DigitScan::PastCap, saw)
    } else {
        (DigitScan::Exact(acc), saw)
    }
}

/// Parses a token as `i64`, by the grammar `i64_token_val` gives: an
/// optional sign, then digits, within range.
fn parse_i64_token(tok: &String) -> (r: Option<i64>)
    ensures
        r == i64_token_val(tok@),
{
    let mut it = tok.as_str().chars();
    let ghost whole = tok@;
    let mut neg = false;
    let mut signed = false;
    let first = it.next();
    match first {
        Option::None => {
            proof {
                assert(whole.len() == 0);
            }
            return None;
        },
        Some(c0) => {
            if c0 == '-' {
                neg = true;
                signed = true;
            } else if c0 == '+' {
                signed = true;
            }
        },
    }
    let ghost body = if signed {
        whole.drop_first()
    } else {
        whole
    };
    if !signed {
        // the first character belongs to the body: scan it again
        it = tok.as_str().chars();
    }
    proof {
        assert(it.remaining() == body);
    }
    let cap: u128 = 0x8000_0000_0000_0000u128;
    let (scan, nonempty) = scan_digits(it, cap, Ghost(body));
    if !nonempty {
        return None;
    }
    match scan {
        DigitScan::Exact(v) => {
            if neg {
                Some((-(v as i128)) as i64)
            } else {
                if v >= 0x8000_0000_0000_0000u128 {
                    None
                } else {
                    Some(v as i64)
                }
            }
        },
        DigitScan::PastCap => None,
        DigitScan::NotDigits => None,
    }
}

/// Parses a token as `u64`, by the grammar `u64_token_val` gives.
fn parse_u64_token(tok: &String) -> (r: Option<u64>)
    ensures
        r == u64_token_val(tok@),
{
    let mut it = tok.as_str().chars();
    let ghost whole = tok@;
    let mut signed = false;
    let first = it.next();
    match first {
        Option::None => {
            proof {
                assert(whole.len() == 0);
            }
            return None;
        },
        Some(c0) => {
            if c0 == '+' {
                signed = true;
            }
        },
    }
    let ghost body = if signed {
        whole.drop_first()
    } else {
        whole
    };
    if !signed {
        it = tok.as_str().chars();
    }
    proof {
        assert(it.remaining() == body);
    }
    let cap: u128 = 0xffff_ffff_ffff_ffffu128;
    let (scan, nonempty) = scan_digits(it, cap, Ghost(body));
    if !nonempty {
        return None;
    }
    match scan {
        DigitScan::Exact(v) => Some(v as u64),
        DigitScan::PastCap => None,
        DigitScan::NotDigits => None,
    }
}

/// The kind of block being assembled.
#[derive(Debug, PartialEq, Eq, Clone, Copy, Structural)]
pub enum CodeType {
    Program,
    LoopCondition,
    LoopCode,
    Function,
    Spawn,
}

/// The assembler's state between lines: the entry sequence and function
/// table built so far, the temporary buffers for the blocks being gathered,
/// the pending buffer the current context appends to, and the context stack.
pub struct AsmState {
    pub entry: Seq<InstrV>,
    pub functions: Map<Seq<char>, Seq<InstrV>>,
    pub loop_condition: Seq<InstrV>,
    pub loop_code: Seq<InstrV>,
    pub function_code: Seq<InstrV>,
    pub function_name: Seq<char>,
    pub spawn_code: Seq<InstrV>,
    pub spawn_vars: Seq<Seq<char>>,
    pub pending: Seq<InstrV>,
    pub context: CodeType,
    pub stack: Seq<CodeType>,
}

pub open spec fn init_asm() -> AsmState {
    AsmState {
        entry: Seq::empty(),
        functions: Map::empty(),
        loop_condition: Seq::empty(),
        loop_code: Seq::empty(),
        function_code: Seq::empty(),
        function_name: Seq::empty(),
        spawn_code: Seq::empty(),
        spawn_vars: Seq::empty(),
        pending: Seq::empty(),
        context: CodeType::Program,
        stack: Seq::empty(),
    }
}

/// Empties the pending buffer into the buffer the current context owns.
pub open spec fn flush_pending(st: AsmState) -> AsmState {
    match st.context {
        CodeType::Program => AsmState { entry: st.entry + st.pending, pending: Seq::empty(), ..st },
        CodeType::LoopCondition => AsmState {
            loop_condition: st.loop_condition + st.pending,
            pending: Seq::empty(),
            ..st
        },
        CodeType::LoopCode => AsmState {
            loop_code: st.loop_code + st.pending,
            pending: Seq::empty(),
            ..st
        },
        CodeType::Function => AsmState {
            function_code: st.function_code + st.pending,
            pending: Seq::empty(),
            ..st
        },
        CodeType::Spawn => AsmState {
            spawn_code: st.spawn_code + st.pending,
            pending: Seq::empty(),
            ..st
        },
    }
}

pub open spec fn push_instr(st: AsmState, i: InstrV) -> AsmState {
    AsmState { pending: st.pending.push(i), ..st }
}

/// What one token line does to the assembler's state.  A line that is
/// malformed for its mnemonic — a missing argument, a number out of form,
/// a block end with no open block — changes nothing, and so does a line
/// whose first token is no mnemonic at all.
pub open spec fn asm_line(st: AsmState, toks: Seq<Seq<char>>) -> AsmState {
    if toks.len() == 0 {
        st
    } else {
        let m = toks[0];
        if m == "LOAD_VAL"@ {
            if toks.len() >= 2 && i64_token_val(toks[1]) is Some {
                push_instr(st, InstrV::LoadVar(i64_token_val(toks[1])->0))
            } else {
                st
            }
        } else if m == "WRITE_VAR"@ {
            if toks.len() >= 2 {
                push_instr(st, InstrV::WriteVar(toks[1]))
            } else {
                st
            }
        } else if m == "READ_VAR"@ {
            if toks.len() >= 2 {
                push_instr(st, InstrV::ReadVar(toks[1]))
            } else {
                st
            }
        } else if m == "ADD"@ {
            push_instr(st, InstrV::Add)
        } else if m == "SUBTRACT"@ {
            push_instr(st, InstrV::Subtract)
        } else if m == "MULTIPLY"@ {
            push_instr(st, InstrV::Multiply)
        } else if m == "DIVIDE"@ {
            push_instr(st, InstrV::Divide)
        } else if m == "LESS_THAN"@ {
            push_instr(st, InstrV::LessThan)
        } else if m == "LESS_THAN_EQUAL"@ {
            push_instr(st, InstrV::LessThanEqual)
        } else if m == "GREATER_THAN"@ {
            push_instr(st, InstrV::GreaterThan)
        } else if m == "GREATER_THAN_EQUAL"@ {
            push_instr(st, InstrV::GreaterThanEqual)
        } else if m == "RETURN"@ {
            push_instr(st, InstrV::Return)
        } else if m == "RETURN_VALUE"@ {
            push_instr(st, InstrV::ReturnValue)
        } else if m == "PRINT"@ {
            if toks.len() >= 2 {
                push_instr(st, InstrV::Print(toks[1]))
            } else {
                st
            }
        } else if m == "PRINT_LN"@ {
            if toks.len() >= 2 {
                push_instr(st, InstrV::PrintLn(toks[1]))
            } else {
                st
            }
        } else if m == "SLEEP"@ {
            if toks.len() >= 2 && u64_token_val(toks[1]) is Some {
                push_instr(st, InstrV::Sleep(u64_token_val(toks[1])->0))
            } else {
                st
            }
        } else if m == "LOOP"@ {
            let st1 = flush_pending(AsmState { stack: st.stack.push(st.context), ..st });
            AsmState { context: CodeType::LoopCondition, ..st1 }
        } else if m == "LOOP_START"@ {
            AsmState {
                loop_condition: st.loop_condition + st.pending,
                pending: Seq::empty(),
                context: CodeType::LoopCode,
                ..st
            }
        } else if m == "LOOP_END"@ {
            if st.stack.len() == 0 {
                st
            } else {
                AsmState {
                    loop_condition: Seq::empty(),
                    loop_code: Seq::empty(),
                    pending: seq![InstrV::Loop(st.loop_condition, st.loop_code + st.pending)],
                    context: st.stack.last(),
                    stack: st.stack.drop_last(),
                    ..st
                }
            }
        } else if m == "FUNC"@ {
            if toks.len() >= 2 {
                AsmState {
                    stack: st.stack.push(st.context),
                    context: CodeType::Function,
                    entry: st.entry + st.pending,
                    pending: Seq::empty(),
                    function_code: Seq::empty(),
                    function_name: toks[1],
                    ..st
                }
            } else {
                st
            }
        } else if m == "FUNC_END"@ {
            if st.stack.len() == 0 {
                st
            } else {
                AsmState {
                    context: st.stack.last(),
                    stack: st.stack.drop_last(),
                    functions: st.functions.insert(
                        st.function_name,
                        st.function_code + st.pending,
                    ),
                    function_code: Seq::empty(),
                    function_name: Seq::empty(),
                    pending: Seq::empty(),
                    ..st
                }
            }
        } else if m == "FUNC_CALL"@ {
            if toks.len() >= 2 {
                push_instr(st, InstrV::FunctionCall(toks[1], toks.skip(2)))
            } else {
                st
            }
        } else if m == "SPAWN"@ {
            AsmState {
                stack: st.stack.push(st.context),
                context: CodeType::Spawn,
                entry: st.entry + st.pending,
                pending: Seq::empty(),
                spawn_code: Seq::empty(),
                spawn_vars: st.spawn_vars + toks.skip(1),
                ..st
            }
        } else if m == "SPAWN_END"@ {
            if st.stack.len() == 0 {
                st
            } else {
                AsmState {
                    context: st.stack.last(),
                    stack: st.stack.drop_last(),
                    pending: seq![InstrV::Spawn(st.spawn_code + st.pending, st.spawn_vars)],
                    spawn_code: Seq::empty(),
                    spawn_vars: Seq::empty(),
                    ..st
                }
            }
        } else if m == "CHANNEL"@ {
            if toks.len() >= 3 {
                push_instr(st, InstrV::Channel(toks[1], toks[2]))
            } else {
                st
            }
        } else if m == "SEND_CHANNEL"@ {
            if toks.len() >= 2 {
                push_instr(st, InstrV::SendChannel(toks[1]))
            } else {
                st
            }
        } else if m == "RECEIVE_CHANNEL"@ {
            if toks.len() >= 2 {
                push_instr(st, InstrV::ReceiveChannel(toks[1]))
            } else {
                st
            }
        } else {
            st
        }
    }
}

pub open spec fn asm_lines(lines: Seq<Seq<Seq<char>>>, st: AsmState) -> AsmState
    decreases lines.len(),
{
    if lines.len() == 0 {
        st
    } else {
        asm_lines(lines.drop_first(), asm_line(st, lines[0]))
    }
}

/// What a whole script assembles to: the entry instruction sequence — with
/// the pending buffer appended at end of input — and the function table.
pub open spec fn assemble(s: Seq<char>) -> (Seq<InstrV>, Map<Seq<char>, Seq<InstrV>>) {
    let st = asm_lines(token_lines(s), init_asm());
    (st.entry + st.pending, st.functions)
}

fn tok_is(t: &String, s: &str) -> (r: bool)
    ensures
        r == (t@ == s@),
{
    let other = String::from_str(s);
    *t == other
}

/// Clones the tokens from `from` on.
fn copy_tail(toks: &Vec<String>, from: usize) -> (r: Vec<String>)
    requires
        from <= toks@.len(),
    ensures
        names_view(r@) == names_view(toks@).skip(from as int),
{
    let mut out: Vec<String> = Vec::new();
    let mut j: usize = from;
    while j < toks.len()
        invariant
            from <= j <= toks@.len(),
            names_view(out@) =~= names_view(toks@).subrange(from as int, j as int),
        decreases toks@.len() - j,
    {
        out.push(toks[j].clone());
        proof {
            assert(names_view(out@) =~= names_view(toks@).subrange(from as int, j + 1));
        }
        j = j + 1;
    }
    proof {
        assert(names_view(out@) =~= names_view(toks@).skip(from as int));
    }
    out
}

struct Assembler {
    byte_code: Vec<ByteCode>,
    functions: FnMap,
    loop_condition: Vec<ByteCode>,
    loop_code: Vec<ByteCode>,
    function_code: Vec<ByteCode>,
    function_name: String,
    spawn_code: Vec<ByteCode>,
    spawn_vars: Vec<String>,
    tmp_code: Vec<ByteCode>,
    code_type: CodeType,
    code_type_stack: Vec<CodeType>,
}

spec fn asm_state_of(a: Assembler) -> AsmState {
    AsmState {
        entry: instrs_view(a.byte_code@),
        functions: fn_table_view(a.functions@),
        loop_condition: instrs_view(a.loop_condition@),
        loop_code: instrs_view(a.loop_code@),
        function_code: instrs_view(a.function_code@),
        function_name: a.function_name@,
        spawn_code: instrs_view(a.spawn_code@),
        spawn_vars: names_view(a.spawn_vars@),
        pending: instrs_view(a.tmp_code@),
        context: a.code_type,
        stack: a.code_type_stack@,
    }
}

impl Assembler {
    fn new() -> (r: Self)
        ensures
            asm_state_of(r) == init_asm(),
    {
        let r = Assembler {
            byte_code: Vec::new(),
            functions: StrMap::new(),
            loop_condition: Vec::new(),
            loop_code: Vec::new(),
            function_code: Vec::new(),
            function_name: String::new(),
            spawn_code: Vec::new(),
            spawn_vars: Vec::new(),
            tmp_code: Vec::new(),
            code_type: CodeType::Program,
            code_type_stack: Vec::new(),
        };
        proof {
            assert(instrs_view(Seq::<ByteCode>::empty()) =~= Seq::<InstrV>::empty());
            assert(names_view(Seq::<String>::empty()) =~= Seq::<Seq<char>>::empty());
            assert(asm_state_of(r) =~= init_asm());
        }
        r
    }

    /// Empties the pending buffer into the current context's buffer.
    fn flush(&mut self)
        ensures
            asm_state_of(*final(self)) == flush_pending(asm_state_of(*old(self))),
    {
        match self.code_type {
            CodeType::Program => self.byte_code.append(&mut self.tmp_code),
            CodeType::LoopCondition => self.loop_condition.append(&mut self.tmp_code),
            CodeType::LoopCode => self.loop_code.append(&mut self.tmp_code),
            CodeType::Function => self.function_code.append(&mut self.tmp_code),
            CodeType::Spawn => self.spawn_code.append(&mut self.tmp_code),
        }
        proof {
            assert(instrs_view(Seq::<ByteCode>::empty()) =~= Seq::<InstrV>::empty());
        }
    }

    /// Applies one token line, as `asm_line` describes.
    fn step(&mut self, toks: &Vec<String>)
        ensures
            asm_state_of(*final(self)) == asm_line(asm_state_of(*old(self)), names_view(toks@)),
    {
        proof {
            assert(instrs_view(Seq::<ByteCode>::empty()) =~= Seq::<InstrV>::empty());
            assert(names_view(Seq::<String>::empty()) =~= Seq::<Seq<char>>::empty());
        }
        if toks.len() == 0 {
            return ;
        }
        let m = &toks[0];
        if tok_is(m, "LOAD_VAL") {
            if toks.len() >= 2 {
                match parse_i64_token(&toks[1]) {
                    Some(v) => self.tmp_code.push(ByteCode::LoadVar(v)),
                    Option::None => {},
                }
            }
        } else if tok_is(m, "WRITE_VAR") {
            if toks.len() >= 2 {
                self.tmp_code.push(ByteCode::WriteVar(toks[1].clone()));
            }
        } else if tok_is(m, "READ_VAR") {
            if toks.len() >= 2 {
                self.tmp_code.push(ByteCode::ReadVar(toks[1].clone()));
            }
        } else if tok_is(m, "ADD") {
            self.tmp_code.push(ByteCode::Add);
        } else if tok_is(m, "SUBTRACT") {
            self.tmp_code.push(ByteCode::Subtract);
        } else if tok_is(m, "MULTIPLY") {
            self.tmp_code.push(ByteCode::Multiply);
        } else if tok_is(m, "DIVIDE") {
            self.tmp_code.push(ByteCode::Divide);
        } else if tok_is(m, "LESS_THAN") {
            self.tmp_code.push(ByteCode::LessThan);
        } else if tok_is(m, "LESS_THAN_EQUAL") {
            self.tmp_code.push(ByteCode::LessThanEqual);
        } else if tok_is(m, "GREATER_THAN") {
            self.tmp_code.push(ByteCode::GreaterThan);
        } else if tok_is(m, "GREATER_THAN_EQUAL") {
            self.tmp_code.push(ByteCode::GreaterThanEqual);
        } else if tok_is(m, "RETURN") {
            self.tmp_code.push(ByteCode::Return);
        } else if tok_is(m, "RETURN_VALUE") {
            self.tmp_code.push(ByteCode::ReturnValue);
        } else if tok_is(m, "PRINT") {
            if toks.len() >= 2 {
                self.tmp_code.push(ByteCode::Print(toks[1].clone()));
            }
        } else if tok_is(m, "PRINT_LN") {
            if toks.len() >= 2 {
                self.tmp_code.push(ByteCode::PrintLn(toks[1].clone()));
            }
        } else if tok_is(m, "SLEEP") {
            if toks.len() >= 2 {
                match parse_u64_token(&toks[1]) {
                    Some(d) => self.tmp_code.push(ByteCode::Sleep(d)),
                    Option::None => {},
                }
            }
        } else if tok_is(m, "LOOP") {
            self.code_type_stack.push(self.code_type);
            self.flush();
            self.code_type = CodeType::LoopCondition;
            proof {
                assert(asm_state_of(*self) == asm_line(
                    asm_state_of(*old(self)),
                    names_view(toks@),
                ));
            }
        } else if tok_is(m, "LOOP_START") {
            self.loop_condition.append(&mut self.tmp_code);
            self.code_type = CodeType::LoopCode;
            proof {
                assert(asm_state_of(*self) == asm_line(
                    asm_state_of(*old(self)),
                    names_view(toks@),
                ));
            }
        } else if tok_is(m, "LOOP_END") {
            if self.code_type_stack.len() > 0 {
                self.loop_code.append(&mut self.tmp_code);
                self.code_type = self.code_type_stack.pop().unwrap();
                let mut cond: Vec<ByteCode> = Vec::new();
                core::mem::swap(&mut cond, &mut self.loop_condition);
                let mut body: Vec<ByteCode> = Vec::new();
                core::mem::swap(&mut body, &mut self.loop_code);
                self.tmp_code.push(ByteCode::Loop(cond, body));
            }
            proof {
                assert(asm_state_of(*self) == asm_line(
                    asm_state_of(*old(self)),
                    names_view(toks@),
                ));
            }
        } else if tok_is(m, "FUNC") {
            if toks.len() >= 2 {
                self.code_type_stack.push(self.code_type);
                self.code_type = CodeType::Function;
                self.byte_code.append(&mut self.tmp_code);
                self.function_code = Vec::new();
                self.function_name = toks[1].clone();
            }
            proof {
                assert(asm_state_of(*self) == asm_line(
                    asm_state_of(*old(self)),
                    names_view(toks@),
                ));
            }
        } else if tok_is(m, "FUNC_END") {
            if self.code_type_stack.len() > 0 {
                self.code_type = self.code_type_stack.pop().unwrap();
                self.function_code.append(&mut self.tmp_code);
                let mut body: Vec<ByteCode> = Vec::new();
                core::mem::swap(&mut body, &mut self.function_code);
                let mut name = String::new();
                core::mem::swap(&mut name, &mut self.function_name);
                self.functions.insert(name, body);
            }
            proof {
                assert(asm_state_of(*self) == asm_line(
                    asm_state_of(*old(self)),
                    names_view(toks@),
                ));
            }
        } else if tok_is(m, "FUNC_CALL") {
            if toks.len() >= 2 {
                let params = copy_tail(toks, 2);
                self.tmp_code.push(ByteCode::FunctionCall(toks[1].clone(), params));
            }
            proof {
                assert(asm_state_of(*self) == asm_line(
                    asm_state_of(*old(self)),
                    names_view(toks@),
                ));
            }
        } else if tok_is(m, "SPAWN") {
            self.code_type_stack.push(self.code_type);
            self.code_type = CodeType::Spawn;
            self.byte_code.append(&mut self.tmp_code);
            self.spawn_code = Vec::new();
            let mut more = copy_tail(toks, 1);
            self.spawn_vars.append(&mut more);
            proof {
                assert(asm_state_of(*self) == asm_line(
                    asm_state_of(*old(self)),
                    names_view(toks@),
                ));
            }
        } else if tok_is(m, "SPAWN_END") {
            if self.code_type_stack.len() > 0 {
                self.code_type = self.code_type_stack.pop().unwrap();
                self.spawn_code.append(&mut self.tmp_code);
                let mut body: Vec<ByteCode> = Vec::new();
                core::mem::swap(&mut body, &mut self.spawn_code);
                let mut names: Vec<String> = Vec::new();
                core::mem::swap(&mut names, &mut self.spawn_vars);
                self.tmp_code.push(ByteCode::Spawn(body, names));
            }
            proof {
                assert(asm_state_of(*self) == asm_line(
                    asm_state_of(*old(self)),
                    names_view(toks@),
                ));
            }
        } else if tok_is(m, "CHANNEL") {
            if toks.len() >= 3 {
                self.tmp_code.push(ByteCode::Channel(toks[1].clone(), toks[2].clone()));
            }
        } else if tok_is(m, "SEND_CHANNEL") {
            if toks.len() >= 2 {
                self.tmp_code.push(ByteCode::SendChannel(toks[1].clone()));
            }
        } else if tok_is(m, "RECEIVE_CHANNEL") {
            if toks.len() >= 2 {
                self.tmp_code.push(ByteCode::ReceiveChannel(toks[1].clone()));
            }
        }
    }
}

/// Assembles script text into the entry instruction sequence and the
/// function table, exactly as `assemble` describes.
pub fn parse_code(script: &str) -> (r: (Vec<ByteCode>, FnMap))
    ensures
        instrs_view(r.0@) == assemble(script@).0,
        fn_table_view(r.1@) == assemble(script@).1,
{
    let lines = tokenize(script);
    let ghost lv = lines_view(lines@);
    let mut a = Assembler::new();
    let mut i: usize = 0;
    proof {
        assert(lv.skip(0) =~= lv);
    }
    while i < lines.len()
        invariant
            i <= lines@.len(),
            lv == lines_view(lines@),
            lv == token_lines(script@),
            asm_lines(lv, init_asm()) == asm_lines(lv.skip(i as int), asm_state_of(a)),
        decreases lines@.len() - i,
    {
        let ghost sa = asm_state_of(a);
        proof {
            assert(lv.skip(i as int)[0] == lv[i as int]);
            assert(lv.skip(i as int).drop_first() =~= lv.skip(i as int + 1));
            assert(lv[i as int] == names_view(lines@[i as int]@));
        }
        a.step(&lines[i]);
        proof {
            assert(asm_lines(lv.skip(i as int), sa) == asm_lines(
                lv.skip(i as int + 1),
                asm_state_of(a),
            ));
        }
        i = i + 1;
    }
    proof {
        assert(lv.skip(lines@.len() as int) =~= Seq::<Seq<Seq<char>>>::empty());
    }
    let Assembler { mut byte_code, functions, mut tmp_code, .. } = a;
    byte_code.append(&mut tmp_code);
    (byte_code, functions)
}

} // verus!

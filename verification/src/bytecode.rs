//! The instruction set, value types, error taxonomy, and the abstract view
//! of an instruction tree.

use vstd::prelude::*;

verus! {

broadcast use vstd::std_specs::vec::group_vec_axioms;

/// One bytecode instruction.  `Loop` and `Spawn` are the only variants that
/// nest instruction sequences.
#[derive(Debug, PartialEq)]
pub enum ByteCode {
    LoadVar(i64),
    WriteVar(String),
    ReadVar(String),
    Add,
    Multiply,
    Subtract,
    Divide,
    LessThan,
    LessThanEqual,
    GreaterThan,
    GreaterThanEqual,
    Loop(Vec<ByteCode>, Vec<ByteCode>),
    FunctionCall(String, Vec<String>),
    Print(String),
    PrintLn(String),
    Sleep(u64),
    Spawn(Vec<ByteCode>, Vec<String>),
    Mutex(String),
    Channel(String, String),
    SendChannel(String),
    ReceiveChannel(String),
    ReturnValue,
    Return,
}

/// The values the machine computes with: a 64-bit signed integer, a boolean,
/// or the unit marker reported by a plain `Return`.
#[derive(Debug, PartialEq, Eq, Clone, Copy, Structural)]
pub enum ByteCodeDataTypes {
    Integer64(i64),
    Boolean(bool),
    Unit,
}

/// One half of a channel.  A channel is a first-in-first-out queue of
/// integers; an endpoint names the queue it sends into or receives from.
#[derive(Debug, PartialEq, Eq, Clone, Copy, Structural)]
pub enum ByteCodeMpscSyncTypes {
    SendChannel(usize),
    ReceiveChannel(usize),
}

/// Execution errors.  `NoReturnOpcode` is reserved and never produced.
#[derive(Debug, PartialEq, Eq, Clone, Copy, Structural)]
pub enum ByteCodeError {
    DivisionByZero,
    StackUnderflow,
    UnknownByteCode,
    NoReturnOpcode,
    ChannelNotFound,
}

/// One entry of the logging sink: a `Print`/`PrintLn` effect, a soft error
/// noted at its point of occurrence, or a sleep request.
#[derive(Debug, PartialEq)]
pub enum Event {
    Printed(String, ByteCodeDataTypes, bool),
    SoftFault(ByteCodeError),
    Slept(u64),
}

/// The abstract form of an instruction: names as character sequences,
/// nested blocks as sequences of abstract instructions.
pub enum InstrV {
    LoadVar(i64),
    WriteVar(Seq<char>),
    ReadVar(Seq<char>),
    Add,
    Multiply,
    Subtract,
    Divide,
    LessThan,
    LessThanEqual,
    GreaterThan,
    GreaterThanEqual,
    Loop(Seq<InstrV>, Seq<InstrV>),
    FunctionCall(Seq<char>, Seq<Seq<char>>),
    Print(Seq<char>),
    PrintLn(Seq<char>),
    Sleep(u64),
    Spawn(Seq<InstrV>, Seq<Seq<char>>),
    Mutex(Seq<char>),
    Channel(Seq<char>, Seq<char>),
    SendChannel(Seq<char>),
    ReceiveChannel(Seq<char>),
    ReturnValue,
    Return,
}

/// The abstract form of a log entry.
pub enum LogEvent {
    Printed(Seq<char>, ByteCodeDataTypes, bool),
    SoftFault(ByteCodeError),
    Slept(u64),
}

pub open spec fn names_view(s: Seq<String>) -> Seq<Seq<char>> {
    Seq::new(s.len(), |i: int| s[i]@)
}

pub open spec fn instr_view(b: ByteCode) -> InstrV
    decreases b,
{
    match b {
        ByteCode::LoadVar(n) => InstrV::LoadVar(n),
        ByteCode::WriteVar(x) => InstrV::WriteVar(x@),
        ByteCode::ReadVar(x) => InstrV::ReadVar(x@),
        ByteCode::Add => InstrV::Add,
        ByteCode::Multiply => InstrV::Multiply,
        ByteCode::Subtract => InstrV::Subtract,
        ByteCode::Divide => InstrV::Divide,
        ByteCode::LessThan => InstrV::LessThan,
        ByteCode::LessThanEqual => InstrV::LessThanEqual,
        ByteCode::GreaterThan => InstrV::GreaterThan,
        ByteCode::GreaterThanEqual => InstrV::GreaterThanEqual,
        ByteCode::Loop(c, d) => InstrV::Loop(instrs_view(c@), instrs_view(d@)),
        ByteCode::FunctionCall(f, ps) => InstrV::FunctionCall(f@, names_view(ps@)),
        ByteCode::Print(x) => InstrV::Print(x@),
        ByteCode::PrintLn(x) => InstrV::PrintLn(x@),
        ByteCode::Sleep(d) => InstrV::Sleep(d),
        ByteCode::Spawn(c, ps) => InstrV::Spawn(instrs_view(c@), names_view(ps@)),
        ByteCode::Mutex(x) => InstrV::Mutex(x@),
        ByteCode::Channel(t, r) => InstrV::Channel(t@, r@),
        ByteCode::SendChannel(x) => InstrV::SendChannel(x@),
        ByteCode::ReceiveChannel(x) => InstrV::ReceiveChannel(x@),
        ByteCode::ReturnValue => InstrV::ReturnValue,
        ByteCode::Return => InstrV::Return,
    }
}

pub open spec fn instrs_view(s: Seq<ByteCode>) -> Seq<InstrV>
    decreases s,
{
    if s.len() == 0 {
        Seq::empty()
    } else {
        instrs_view(s.drop_last()).push(instr_view(s.last()))
    }
}

pub broadcast proof fn lemma_instrs_view(s: Seq<ByteCode>)
    ensures
        (#[trigger] instrs_view(s)).len() == s.len(),
        forall|i: int| 0 <= i < s.len() ==> instrs_view(s)[i] == instr_view(s[i]),
    decreases s,
{
    if s.len() > 0 {
        lemma_instrs_view(s.drop_last());
    }
}

impl View for ByteCode {
    type V = InstrV;

    open spec fn view(&self) -> InstrV {
        instr_view(*self)
    }
}

impl View for Event {
    type V = LogEvent;

    open spec fn view(&self) -> LogEvent {
        match self {
            Event::Printed(x, v, nl) => LogEvent::Printed(x@, *v, *nl),
            Event::SoftFault(e) => LogEvent::SoftFault(*e),
            Event::Slept(d) => LogEvent::Slept(*d),
        }
    }
}

pub open spec fn log_view(s: Seq<Event>) -> Seq<LogEvent> {
    Seq::new(s.len(), |i: int| s[i]@)
}

pub open spec fn queues_view(s: Seq<Vec<i64>>) -> Seq<Seq<i64>> {
    Seq::new(s.len(), |i: int| s[i]@)
}

pub broadcast proof fn lemma_instrs_view_push(s: Seq<ByteCode>, x: ByteCode)
    ensures
        #[trigger] instrs_view(s.push(x)) == instrs_view(s).push(instr_view(x)),
{
    assert(s.push(x).drop_last() =~= s);
}

pub broadcast proof fn lemma_instrs_view_concat(a: Seq<ByteCode>, b: Seq<ByteCode>)
    ensures
        #[trigger] instrs_view(a + b) == instrs_view(a) + instrs_view(b),
    decreases b.len(),
{
    if b.len() == 0 {
        assert(a + b =~= a);
        assert(instrs_view(a) + instrs_view(b) =~= instrs_view(a));
    } else {
        lemma_instrs_view_concat(a, b.drop_last());
        lemma_instrs_view(a);
        lemma_instrs_view(b);
        assert((a + b).drop_last() =~= a + b.drop_last());
        assert((a + b).last() == b.last());
        assert(instrs_view(a) + instrs_view(b) =~= (instrs_view(a) + instrs_view(
            b.drop_last(),
        )).push(instr_view(b.last())));
    }
}

pub broadcast proof fn lemma_names_view_push(s: Seq<String>, x: String)
    ensures
        #[trigger] names_view(s.push(x)) == names_view(s).push(x@),
{
    assert(names_view(s.push(x)) =~= names_view(s).push(x@));
}

pub broadcast proof fn lemma_names_view_concat(a: Seq<String>, b: Seq<String>)
    ensures
        #[trigger] names_view(a + b) == names_view(a) + names_view(b),
{
    assert(names_view(a + b) =~= names_view(a) + names_view(b));
}

pub broadcast proof fn lemma_log_view_push(s: Seq<Event>, e: Event)
    ensures
        #[trigger] log_view(s.push(e)) == log_view(s).push(e@),
{
    assert(log_view(s.push(e)) =~= log_view(s).push(e@));
}

pub broadcast proof fn lemma_queues_view_push(s: Seq<Vec<i64>>, q: Vec<i64>)
    ensures
        #[trigger] queues_view(s.push(q)) == queues_view(s).push(q@),
{
    assert(queues_view(s.push(q)) =~= queues_view(s).push(q@));
}

pub broadcast proof fn lemma_queues_view_update(s: Seq<Vec<i64>>, i: int, q: Vec<i64>)
    requires
        0 <= i < s.len(),
    ensures
        #[trigger] queues_view(s.update(i, q)) == queues_view(s).update(i, q@),
{
    assert(queues_view(s.update(i, q)) =~= queues_view(s).update(i, q@));
}

} // verus!

//! The instructions of the storage family and their byte codes.
use vstd::prelude::*;

verus! {

/// How a cursor is to be positioned.
#[derive(PartialEq, Eq, Structural, Clone, Copy, Debug)]
pub enum Motion {
    First,
    Last,
    Next,
    Prev,
    Seek,
    Current,
}

/// What a positioned cursor reports: the pair it stands on, or only whether
/// it stands on one.
#[derive(PartialEq, Eq, Structural, Clone, Copy, Debug)]
pub enum Form {
    Fetch,
    Test,
}

/// An instruction of the storage family. `WriteEnd` and `ReadEnd` are
/// internal: they are queued behind a transaction's block.
#[derive(PartialEq, Eq, Structural, Clone, Copy, Debug)]
pub enum Op {
    Write,
    WriteEnd,
    Read,
    ReadEnd,
    Assoc,
    AssocQ,
    Retr,
    Cursor,
    Move(Motion, Form),
    Commit,
}

/// The byte code of each instruction.
pub open spec fn op_code(op: Op) -> Seq<u8> {
    match op {
        Op::Write => seq![0x85, 0x57, 0x52, 0x49, 0x54, 0x45],
        Op::WriteEnd => seq![0x80, 0x85, 0x57, 0x52, 0x49, 0x54, 0x45],
        Op::Read => seq![0x84, 0x52, 0x45, 0x41, 0x44],
        Op::ReadEnd => seq![0x80, 0x84, 0x52, 0x45, 0x41, 0x44],
        Op::Assoc => seq![0x85, 0x41, 0x53, 0x53, 0x4f, 0x43],
        Op::AssocQ => seq![0x86, 0x41, 0x53, 0x53, 0x4f, 0x43, 0x3f],
        Op::Retr => seq![0x84, 0x52, 0x45, 0x54, 0x52],
        Op::Cursor => seq![0x86, 0x43, 0x55, 0x52, 0x53, 0x4f, 0x52],
        Op::Move(Motion::First, Form::Fetch) => seq![0x8d, 0x3f, 0x43, 0x55, 0x52, 0x53, 0x4f, 0x52, 0x2f, 0x46, 0x49, 0x52, 0x53, 0x54],
        Op::Move(Motion::First, Form::Test) => seq![0x8d, 0x43, 0x55, 0x52, 0x53, 0x4f, 0x52, 0x2f, 0x46, 0x49, 0x52, 0x53, 0x54, 0x3f],
        Op::Move(Motion::Last, Form::Fetch) => seq![0x8c, 0x3f, 0x43, 0x55, 0x52, 0x53, 0x4f, 0x52, 0x2f, 0x4c, 0x41, 0x53, 0x54],
        Op::Move(Motion::Last, Form::Test) => seq![0x8c, 0x43, 0x55, 0x52, 0x53, 0x4f, 0x52, 0x2f, 0x4c, 0x41, 0x53, 0x54, 0x3f],
        Op::Move(Motion::Next, Form::Fetch) => seq![0x8c, 0x3f, 0x43, 0x55, 0x52, 0x53, 0x4f, 0x52, 0x2f, 0x4e, 0x45, 0x58, 0x54],
        Op::Move(Motion::Next, Form::Test) => seq![0x8c, 0x43, 0x55, 0x52, 0x53, 0x4f, 0x52, 0x2f, 0x4e, 0x45, 0x58, 0x54, 0x3f],
        Op::Move(Motion::Prev, Form::Fetch) => seq![0x8c, 0x3f, 0x43, 0x55, 0x52, 0x53, 0x4f, 0x52, 0x2f, 0x50, 0x52, 0x45, 0x56],
        Op::Move(Motion::Prev, Form::Test) => seq![0x8c, 0x43, 0x55, 0x52, 0x53, 0x4f, 0x52, 0x2f, 0x50, 0x52, 0x45, 0x56, 0x3f],
        Op::Move(Motion::Seek, Form::Fetch) => seq![0x8c, 0x3f, 0x43, 0x55, 0x52, 0x53, 0x4f, 0x52, 0x2f, 0x53, 0x45, 0x45, 0x4b],
        Op::Move(Motion::Seek, Form::Test) => seq![0x8c, 0x43, 0x55, 0x52, 0x53, 0x4f, 0x52, 0x2f, 0x53, 0x45, 0x45, 0x4b, 0x3f],
        Op::Move(Motion::Current, Form::Fetch) => seq![0x8b, 0x3f, 0x43, 0x55, 0x52, 0x53, 0x4f, 0x52, 0x2f, 0x43, 0x55, 0x52],
        Op::Move(Motion::Current, Form::Test) => seq![0x8b, 0x43, 0x55, 0x52, 0x53, 0x4f, 0x52, 0x2f, 0x43, 0x55, 0x52, 0x3f],
        Op::Commit => seq![0x86, 0x43, 0x4f, 0x4d, 0x4d, 0x49, 0x54],
    }
}

/// The instruction whose byte code is `s`, if any.
pub open spec fn op_of(s: Seq<u8>) -> Option<Op> {
    if s == op_code(Op::Write) {
        Some(Op::Write)
    } else if s == op_code(Op::WriteEnd) {
        Some(Op::WriteEnd)
    } else if s == op_code(Op::Read) {
        Some(Op::Read)
    } else if s == op_code(Op::ReadEnd) {
        Some(Op::ReadEnd)
    } else if s == op_code(Op::Assoc) {
        Some(Op::Assoc)
    } else if s == op_code(Op::AssocQ) {
        Some(Op::AssocQ)
    } else if s == op_code(Op::Retr) {
        Some(Op::Retr)
    } else if s == op_code(Op::Cursor) {
        Some(Op::Cursor)
    } else if s == op_code(Op::Move(Motion::First, Form::Fetch)) {
        Some(Op::Move(Motion::First, Form::Fetch))
    } else if s == op_code(Op::Move(Motion::First, Form::Test)) {
        Some(Op::Move(Motion::First, Form::Test))
    } else if s == op_code(Op::Move(Motion::Last, Form::Fetch)) {
        Some(Op::Move(Motion::Last, Form::Fetch))
    } else if s == op_code(Op::Move(Motion::Last, Form::Test)) {
        Some(Op::Move(Motion::Last, Form::Test))
    } else if s == op_code(Op::Move(Motion::Next, Form::Fetch)) {
        Some(Op::Move(Motion::Next, Form::Fetch))
    } else if s == op_code(Op::Move(Motion::Next, Form::Test)) {
        Some(Op::Move(Motion::Next, Form::Test))
    } else if s == op_code(Op::Move(Motion::Prev, Form::Fetch)) {
        Some(Op::Move(Motion::Prev, Form::Fetch))
    } else if s == op_code(Op::Move(Motion::Prev, Form::Test)) {
        Some(Op::Move(Motion::Prev, Form::Test))
    } else if s == op_code(Op::Move(Motion::Seek, Form::Fetch)) {
        Some(Op::Move(Motion::Seek, Form::Fetch))
    } else if s == op_code(Op::Move(Motion::Seek, Form::Test)) {
        Some(Op::Move(Motion::Seek, Form::Test))
    } else if s == op_code(Op::Move(Motion::Current, Form::Fetch)) {
        Some(Op::Move(Motion::Current, Form::Fetch))
    } else if s == op_code(Op::Move(Motion::Current, Form::Test)) {
        Some(Op::Move(Motion::Current, Form::Test))
    } else if s == op_code(Op::Commit) {
        Some(Op::Commit)
    } else {
        None
    }
}

/// The byte code of `op`.
pub fn code_of(op: Op) -> (r: Vec<u8>)
    ensures
        r@ == op_code(op),
{
    let r = match op {
        Op::Write => vec![0x85, 0x57, 0x52, 0x49, 0x54, 0x45],
        Op::WriteEnd => vec![0x80, 0x85, 0x57, 0x52, 0x49, 0x54, 0x45],
        Op::Read => vec![0x84, 0x52, 0x45, 0x41, 0x44],
        Op::ReadEnd => vec![0x80, 0x84, 0x52, 0x45, 0x41, 0x44],
        Op::Assoc => vec![0x85, 0x41, 0x53, 0x53, 0x4f, 0x43],
        Op::AssocQ => vec![0x86, 0x41, 0x53, 0x53, 0x4f, 0x43, 0x3f],
        Op::Retr => vec![0x84, 0x52, 0x45, 0x54, 0x52],
        Op::Cursor => vec![0x86, 0x43, 0x55, 0x52, 0x53, 0x4f, 0x52],
        Op::Move(Motion::First, Form::Fetch) => vec![0x8d, 0x3f, 0x43, 0x55, 0x52, 0x53, 0x4f, 0x52, 0x2f, 0x46, 0x49, 0x52, 0x53, 0x54],
        Op::Move(Motion::First, Form::Test) => vec![0x8d, 0x43, 0x55, 0x52, 0x53, 0x4f, 0x52, 0x2f, 0x46, 0x49, 0x52, 0x53, 0x54, 0x3f],
        Op::Move(Motion::Last, Form::Fetch) => vec![0x8c, 0x3f, 0x43, 0x55, 0x52, 0x53, 0x4f, 0x52, 0x2f, 0x4c, 0x41, 0x53, 0x54],
        Op::Move(Motion::Last, Form::Test) => vec![0x8c, 0x43, 0x55, 0x52, 0x53, 0x4f, 0x52, 0x2f, 0x4c, 0x41, 0x53, 0x54, 0x3f],
        Op::Move(Motion::Next, Form::Fetch) => vec![0x8c, 0x3f, 0x43, 0x55, 0x52, 0x53, 0x4f, 0x52, 0x2f, 0x4e, 0x45, 0x58, 0x54],
        Op::Move(Motion::Next, Form::Test) => vec![0x8c, 0x43, 0x55, 0x52, 0x53, 0x4f, 0x52, 0x2f, 0x4e, 0x45, 0x58, 0x54, 0x3f],
        Op::Move(Motion::Prev, Form::Fetch) => vec![0x8c, 0x3f, 0x43, 0x55, 0x52, 0x53, 0x4f, 0x52, 0x2f, 0x50, 0x52, 0x45, 0x56],
        Op::Move(Motion::Prev, Form::Test) => vec![0x8c, 0x43, 0x55, 0x52, 0x53, 0x4f, 0x52, 0x2f, 0x50, 0x52, 0x45, 0x56, 0x3f],
        Op::Move(Motion::Seek, Form::Fetch) => vec![0x8c, 0x3f, 0x43, 0x55, 0x52, 0x53, 0x4f, 0x52, 0x2f, 0x53, 0x45, 0x45, 0x4b],
        Op::Move(Motion::Seek, Form::Test) => vec![0x8c, 0x43, 0x55, 0x52, 0x53, 0x4f, 0x52, 0x2f, 0x53, 0x45, 0x45, 0x4b, 0x3f],
        Op::Move(Motion::Current, Form::Fetch) => vec![0x8b, 0x3f, 0x43, 0x55, 0x52, 0x53, 0x4f, 0x52, 0x2f, 0x43, 0x55, 0x52],
        Op::Move(Motion::Current, Form::Test) => vec![0x8b, 0x43, 0x55, 0x52, 0x53, 0x4f, 0x52, 0x2f, 0x43, 0x55, 0x52, 0x3f],
        Op::Commit => vec![0x86, 0x43, 0x4f, 0x4d, 0x4d, 0x49, 0x54],
    };
    assert(r@ =~= op_code(op));
    r
}

fn same_bytes(a: &[u8], b: &Vec<u8>) -> (r: bool)
    ensures
        r == (a@ == b@),
{
    if a.len() != b.len() {
        return false;
    }
    let mut i: usize = 0;
    while i < a.len()
        invariant
            a@.len() == b@.len(),
            i <= a@.len(),
            forall|j: int| 0 <= j < i ==> a@[j] == b@[j],
        decreases a@.len() - i,
    {
        if a[i] != b[i] {
            return false;
        }
        i = i + 1;
    }
    assert(a@ =~= b@);
    true
}

/// Recognises an instruction of the storage family.
pub fn decode_op(instruction: &[u8]) -> (r: Option<Op>)
    ensures
        r == op_of(instruction@),
{
    if same_bytes(instruction, &code_of(Op::Write)) {
        Some(Op::Write)
    } else if same_bytes(instruction, &code_of(Op::WriteEnd)) {
        Some(Op::WriteEnd)
    } else if same_bytes(instruction, &code_of(Op::Read)) {
        Some(Op::Read)
    } else if same_bytes(instruction, &code_of(Op::ReadEnd)) {
        Some(Op::ReadEnd)
    } else if same_bytes(instruction, &code_of(Op::Assoc)) {
        Some(Op::Assoc)
    } else if same_bytes(instruction, &code_of(Op::AssocQ)) {
        Some(Op::AssocQ)
    } else if same_bytes(instruction, &code_of(Op::Retr)) {
        Some(Op::Retr)
    } else if same_bytes(instruction, &code_of(Op::Cursor)) {
        Some(Op::Cursor)
    } else if same_bytes(instruction, &code_of(Op::Move(Motion::First, Form::Fetch))) {
        Some(Op::Move(Motion::First, Form::Fetch))
    } else if same_bytes(instruction, &code_of(Op::Move(Motion::First, Form::Test))) {
        Some(Op::Move(Motion::First, Form::Test))
    } else if same_bytes(instruction, &code_of(Op::Move(Motion::Last, Form::Fetch))) {
        Some(Op::Move(Motion::Last, Form::Fetch))
    } else if same_bytes(instruction, &code_of(Op::Move(Motion::Last, Form::Test))) {
        Some(Op::Move(Motion::Last, Form::Test))
    } else if same_bytes(instruction, &code_of(Op::Move(Motion::Next, Form::Fetch))) {
        Some(Op::Move(Motion::Next, Form::Fetch))
    } else if same_bytes(instruction, &code_of(Op::Move(Motion::Next, Form::Test))) {
        Some(Op::Move(Motion::Next, Form::Test))
    } else if same_bytes(instruction, &code_of(Op::Move(Motion::Prev, Form::Fetch))) {
        Some(Op::Move(Motion::Prev, Form::Fetch))
    } else if same_bytes(instruction, &code_of(Op::Move(Motion::Prev, Form::Test))) {
        Some(Op::Move(Motion::Prev, Form::Test))
    } else if same_bytes(instruction, &code_of(Op::Move(Motion::Seek, Form::Fetch))) {
        Some(Op::Move(Motion::Seek, Form::Fetch))
    } else if same_bytes(instruction, &code_of(Op::Move(Motion::Seek, Form::Test))) {
        Some(Op::Move(Motion::Seek, Form::Test))
    } else if same_bytes(instruction, &code_of(Op::Move(Motion::Current, Form::Fetch))) {
        Some(Op::Move(Motion::Current, Form::Fetch))
    } else if same_bytes(instruction, &code_of(Op::Move(Motion::Current, Form::Test))) {
        Some(Op::Move(Motion::Current, Form::Test))
    } else if same_bytes(instruction, &code_of(Op::Commit)) {
        Some(Op::Commit)
    } else {
        None
    }
}

} // verus!

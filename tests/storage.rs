use std::collections::BTreeMap;
use std::collections::HashMap;

use pumpkin_storage::codec::encode_pair;
use pumpkin_storage::handler::{Action, GetOutcome, PutOutcome};
use pumpkin_storage::opcode::{code_of, decode_op, Form, Motion, Op};
use pumpkin_storage::state::{Env, Handler, StorageError, TxKind};
use pumpkin_storage::token::{cursor_token, token_parts_of};

/// An ordered store with one write transaction at a time and snapshot
/// reads, answering what the handler asks of the engine.
struct Engine {
    committed: BTreeMap<Vec<u8>, Vec<u8>>,
    pending: Option<BTreeMap<Vec<u8>, Vec<u8>>>,
    snapshots: HashMap<u64, BTreeMap<Vec<u8>, Vec<u8>>>,
    positions: HashMap<u64, Option<Vec<u8>>>,
}

impl Engine {
    fn new() -> Engine {
        Engine { committed: BTreeMap::new(), pending: None, snapshots: HashMap::new(), positions: HashMap::new() }
    }

    fn view(&self, kind: TxKind, pid: u64) -> &BTreeMap<Vec<u8>, Vec<u8>> {
        match kind {
            TxKind::Write => self.pending.as_ref().unwrap(),
            TxKind::Read => self.snapshots.get(&pid).unwrap(),
        }
    }
}

enum Step {
    Push(Vec<u8>),
    Run(Op),
    Block(usize),
    Code(Vec<u8>),
}

struct Machine {
    handler: Handler,
    engine: Engine,
    blocks: Vec<Vec<Step>>,
}

fn op(o: Op) -> Vec<u8> {
    code_of(o)
}

impl Machine {
    fn new() -> Machine {
        Machine { handler: Handler::new(), engine: Engine::new(), blocks: Vec::new() }
    }

    fn block(&mut self, steps: Vec<Step>) -> Vec<u8> {
        self.blocks.push(steps);
        vec![0xff, (self.blocks.len() - 1) as u8]
    }

    /// Runs one storage instruction, performing what it asks of the engine.
    fn exec(&mut self, env: &mut Env, instruction: &[u8], pid: u64) -> Result<(), StorageError> {
        let h = &mut self.handler;
        let e = &mut self.engine;
        match h.handle(env, instruction, pid)? {
            Action::AcquireWrite => {
                if e.pending.is_some() {
                    return Err(StorageError::Reschedule);
                }
                e.pending = Some(e.committed.clone());
                h.begin_write(env, pid)
            }
            Action::ReleaseWrite => {
                e.pending = None;
                Ok(())
            }
            Action::OpenRead => {
                e.snapshots.insert(pid, e.committed.clone());
                h.begin_read(env, pid)
            }
            Action::CloseRead => {
                e.snapshots.remove(&pid);
                Ok(())
            }
            Action::Put { key, value } => {
                let p = e.pending.as_mut().unwrap();
                let outcome = if p.contains_key(&key) {
                    PutOutcome::KeyExists
                } else {
                    p.insert(key, value);
                    PutOutcome::Stored
                };
                Handler::finish_assoc(outcome)
            }
            Action::Get { kind, key, probe } => {
                let outcome = match e.view(kind, pid).get(&key) {
                    Some(v) => GetOutcome::Found(v.clone()),
                    None => GetOutcome::Missing,
                };
                if probe {
                    Handler::finish_assocq(env, outcome)
                } else {
                    Handler::finish_retr(env, outcome)
                }
            }
            Action::Commit => {
                e.committed = e.pending.take().unwrap();
                Handler::finish_commit(Ok(()))
            }
            Action::OpenCursor { .. } => {
                let id = h.finish_cursor(env, pid, Ok(()))?;
                e.positions.insert(id, None);
                Ok(())
            }
            Action::Move { kind, id, motion, form, seek } => {
                let store = e.view(kind, pid).clone();
                let at = e.positions.get(&id).cloned().flatten();
                let target: Option<Vec<u8>> = match motion {
                    Motion::First => store.keys().next().cloned(),
                    Motion::Last => store.keys().next_back().cloned(),
                    Motion::Next => match &at {
                        None => store.keys().next().cloned(),
                        Some(k) => store.range(k.clone()..).map(|(k2, _)| k2.clone()).find(|k2| k2 > k),
                    },
                    Motion::Prev => match &at {
                        None => store.keys().next_back().cloned(),
                        Some(k) => store.range(..k.clone()).next_back().map(|(k2, _)| k2.clone()),
                    },
                    Motion::Seek => store.range(seek.unwrap()..).next().map(|(k2, _)| k2.clone()),
                    Motion::Current => at.clone(),
                };
                if target.is_some() {
                    e.positions.insert(id, target.clone());
                }
                let found = target.map(|k| {
                    let v = store.get(&k).unwrap().clone();
                    (k, v)
                });
                Handler::finish_move(env, form, found);
                Ok(())
            }
        }
    }

    /// Runs `steps`, and whatever the handler queues, in order. After a
    /// failure only the queued end markers still run.
    fn run(&mut self, env: &mut Env, steps: Vec<Step>, pid: u64) -> Result<(), StorageError> {
        let mut todo: Vec<Step> = steps.into_iter().rev().collect();
        let mut failure = None;
        let ends = [op(Op::WriteEnd), op(Op::ReadEnd)];
        while let Some(step) = todo.pop() {
            let code = match step {
                Step::Push(v) => {
                    if failure.is_none() {
                        env.stack.push(v);
                    }
                    continue;
                }
                Step::Block(b) => {
                    if failure.is_none() {
                        env.stack.push(vec![0xff, b as u8]);
                    }
                    continue;
                }
                Step::Run(o) => op(o),
                Step::Code(c) => c,
            };
            if code.len() == 2 && code[0] == 0xff {
                if failure.is_none() {
                    let idx = code[1] as usize;
                    let block: Vec<Step> = self.blocks[idx]
                        .iter()
                        .map(|s| match s {
                            Step::Push(v) => Step::Push(v.clone()),
                            Step::Run(o) => Step::Run(*o),
                            Step::Block(b) => Step::Block(*b),
                            Step::Code(c) => Step::Code(c.clone()),
                        })
                        .collect();
                    todo.extend(block.into_iter().rev());
                }
                continue;
            }
            if failure.is_some() && !ends.contains(&code) {
                continue;
            }
            if let Err(e) = self.exec(env, &code, pid) {
                failure = failure.or(Some(e));
            }
            let queued: Vec<Vec<u8>> = env.program.drain(..).collect();
            todo.extend(queued.into_iter().map(Step::Code));
        }
        match failure {
            Some(e) => Err(e),
            None => Ok(()),
        }
    }
}

fn env() -> Env {
    Env { stack: Vec::new(), program: Vec::new() }
}

fn push(b: &[u8]) -> Step {
    Step::Push(b.to_vec())
}

fn write_pairs(m: &mut Machine, pairs: &[(&[u8], &[u8])], pid: u64) {
    let mut steps = Vec::new();
    for (k, v) in pairs {
        steps.push(push(k));
        steps.push(push(v));
        steps.push(Step::Run(Op::Assoc));
    }
    steps.push(Step::Run(Op::Commit));
    m.blocks.push(steps);
    let b = m.blocks.len() - 1;
    let mut e = env();
    m.run(&mut e, vec![Step::Block(b), Step::Run(Op::Write)], pid).unwrap();
}

#[test]
fn errors_during_txn() {
    // ["Hey" ASSOC COMMIT] WRITE fails (ASSOC lacks a value), then
    // ["Hey" ASSOC?] READ pushes 0x00.
    let mut m = Machine::new();
    let failing = m.block(vec![push(b"Hey"), Step::Run(Op::Assoc), Step::Run(Op::Commit)]);
    let mut e = env();
    let r = m.run(&mut e, vec![Step::Push(failing), Step::Run(Op::Write)], 1);
    assert_eq!(r, Err(StorageError::EmptyStack));
    e.stack.clear();
    let probe = m.block(vec![push(b"Hey"), Step::Run(Op::AssocQ)]);
    m.run(&mut e, vec![Step::Push(probe), Step::Run(Op::Read)], 1).unwrap();
    assert_eq!(e.stack.pop().unwrap(), vec![0x00u8]);

    // ... TRY DROP ["Hey" "there" ASSOC COMMIT] WRITE ["Hey" ASSOC?] READ
    // pushes 0x01.
    let mut m = Machine::new();
    let failing = m.block(vec![push(b"Hey"), Step::Run(Op::Assoc), Step::Run(Op::Commit)]);
    let mut e = env();
    let _ = m.run(&mut e, vec![Step::Push(failing), Step::Run(Op::Write)], 1);
    e.stack.clear();
    let good = m.block(vec![push(b"Hey"), push(b"there"), Step::Run(Op::Assoc), Step::Run(Op::Commit)]);
    m.run(&mut e, vec![Step::Push(good), Step::Run(Op::Write)], 1).unwrap();
    let probe = m.block(vec![push(b"Hey"), Step::Run(Op::AssocQ)]);
    m.run(&mut e, vec![Step::Push(probe), Step::Run(Op::Read)], 1).unwrap();
    assert_eq!(e.stack.pop().unwrap(), vec![0x01u8]);
}

fn pair(k: &[u8], v: &[u8]) -> Vec<u8> {
    encode_pair(k, v)
}

/// Opens a read transaction for `pid` by hand and returns the machine's env.
fn open_read(m: &mut Machine, pid: u64) -> Env {
    let mut e = env();
    e.stack.push(vec![0xff, 0xee]);
    m.exec(&mut e, &op(Op::Read), pid).unwrap();
    e.program.clear();
    e
}

fn open_write(m: &mut Machine, pid: u64) -> Env {
    let mut e = env();
    e.stack.push(vec![0xff, 0xee]);
    m.exec(&mut e, &op(Op::Write), pid).unwrap();
    e.program.clear();
    e
}

fn open_cursor(m: &mut Machine, e: &mut Env, pid: u64) -> Vec<u8> {
    m.exec(e, &op(Op::Cursor), pid).unwrap();
    e.stack.pop().unwrap()
}

fn cursor_op(m: &mut Machine, e: &mut Env, pid: u64, token: &[u8], motion: Motion, form: Form) -> Result<Vec<u8>, StorageError> {
    e.stack.push(token.to_vec());
    m.exec(e, &op(Op::Move(motion, form)), pid)?;
    Ok(e.stack.pop().unwrap())
}

#[test]
fn size_prefixes_and_pairs_encode_exactly() {
    assert_eq!(pair(b"", b""), vec![0u8, 0]);
    assert_eq!(pair(b"a", b"b"), vec![1u8, b'a', 1, b'b']);
    let k120 = vec![7u8; 120];
    assert_eq!(pair(&k120, b"")[0], 120);
    let k121 = vec![7u8; 121];
    assert_eq!(&pair(&k121, b"")[..2], &[121u8, 121][..]);
    let k255 = vec![9u8; 255];
    let enc = pair(&k255, b"x");
    assert_eq!(&enc[..2], &[121u8, 255][..]);
    assert_eq!(&enc[2..257], &k255[..]);
    assert_eq!(&enc[257..], &[1u8, b'x'][..]);
    let v256 = vec![3u8; 256];
    let enc = pair(b"k", &v256);
    assert_eq!(&enc[..5], &[1u8, b'k', 122, 1, 0][..]);
    assert_eq!(&enc[5..], &v256[..]);
    let v70000 = vec![5u8; 70000];
    let enc = pair(b"", &v70000);
    assert_eq!(&enc[..6], &[0u8, 123, 0x00, 0x01, 0x11, 0x70][..]);
    assert_eq!(enc.len(), 6 + 70000);
}

#[test]
fn cursor_tokens_are_big_endian() {
    let t = cursor_token(0x0a0b, 0x0102030405060708);
    assert_eq!(t, vec![0u8, 0, 0, 0, 0, 0, 0x0a, 0x0b, 1, 2, 3, 4, 5, 6, 7, 8]);
    assert_eq!(token_parts_of(&t), Some((0x0a0b, 0x0102030405060708)));
    assert_eq!(cursor_token(0, 0), vec![0u8; 16]);
    assert_eq!(token_parts_of(&[1u8, 2, 3]), None);
    assert_eq!(token_parts_of(&[0u8; 8]), None);
}

#[test]
fn opcodes_decode() {
    assert_eq!(decode_op(b"\x85WRITE"), Some(Op::Write));
    assert_eq!(decode_op(b"\x80\x84READ"), Some(Op::ReadEnd));
    assert_eq!(decode_op(b"\x8D?CURSOR/FIRST"), Some(Op::Move(Motion::First, Form::Fetch)));
    assert_eq!(decode_op(b"\x8BCURSOR/CUR?"), Some(Op::Move(Motion::Current, Form::Test)));
    assert_eq!(decode_op(b"\x84DROP"), None);
}

#[test]
fn unknown_instruction_changes_nothing() {
    let mut h = Handler::new();
    let mut e = env();
    e.stack.push(vec![1]);
    assert!(matches!(h.handle(&mut e, b"\x84DROP", 1), Err(StorageError::UnknownInstruction)));
    assert_eq!(e.stack, vec![vec![1u8]]);
}

#[test]
fn second_writer_is_rescheduled() {
    let mut m = Machine::new();
    let _e1 = open_write(&mut m, 1);
    let mut e2 = env();
    e2.stack.push(vec![0xff, 0]);
    assert_eq!(m.exec(&mut e2, &op(Op::Write), 2), Err(StorageError::Reschedule));
    assert_eq!(e2.stack.len(), 1);
    assert!(e2.program.is_empty());
    assert_eq!(m.handler.write_owner, Some(1));
    // the holder itself cannot open a second one either
    let mut e4 = env();
    assert!(matches!(m.handler.handle_write(&mut e4, &op(Op::Write), 1), Err(StorageError::Reschedule)));
    let mut e3 = env();
    e3.stack.push(vec![0xff, 0]);
    assert_eq!(m.handler.begin_write(&mut e3, 1), Err(StorageError::Reschedule));
    assert_eq!(e3.stack.len(), 1);
}

#[test]
fn commit_by_other_or_without_transaction() {
    let mut h = Handler::new();
    assert!(matches!(h.handle_commit(&op(Op::Commit), 1), Err(StorageError::NoTransaction)));
    let mut e = env();
    e.stack.push(vec![0xff, 0]);
    h.begin_write(&mut e, 1).unwrap();
    assert!(matches!(h.handle_commit(&op(Op::Commit), 2), Err(StorageError::Reschedule)));
    assert_eq!(h.write_owner, Some(1));
    assert!(matches!(h.handle_commit(&op(Op::Commit), 1), Ok(Action::Commit)));
    assert_eq!(h.write_owner, None);
    assert_eq!(Handler::finish_commit(Err(-30792)), Err(StorageError::Database(-30792)));
    assert_eq!(Handler::finish_commit(Ok(())), Ok(()));
}

#[test]
fn duplicate_key_leaves_store_unchanged() {
    let mut m = Machine::new();
    write_pairs(&mut m, &[(b"k", b"first")], 1);
    let mut e = env();
    let b = m.block(vec![push(b"k"), push(b"second"), Step::Run(Op::Assoc), Step::Run(Op::Commit)]);
    let r = m.run(&mut e, vec![Step::Push(b), Step::Run(Op::Write)], 1);
    assert_eq!(r, Err(StorageError::DuplicateKey));
    assert_eq!(m.engine.committed.get(&b"k".to_vec()), Some(&b"first".to_vec()));
    assert_eq!(Handler::finish_assoc(PutOutcome::KeyExists), Err(StorageError::DuplicateKey));
    assert_eq!(Handler::finish_assoc(PutOutcome::Stored), Ok(()));
    assert_eq!(Handler::finish_assoc(PutOutcome::Failed(-30791)), Err(StorageError::Database(-30791)));
}

#[test]
fn retrieve_absent_and_present() {
    let mut m = Machine::new();
    write_pairs(&mut m, &[(b"key", b"\x00value\xff")], 1);
    let mut e = open_read(&mut m, 1);
    e.stack.push(b"key".to_vec());
    m.exec(&mut e, &op(Op::Retr), 1).unwrap();
    assert_eq!(e.stack.pop().unwrap(), b"\x00value\xff".to_vec());
    e.stack.push(b"nope".to_vec());
    assert_eq!(m.exec(&mut e, &op(Op::Retr), 1), Err(StorageError::UnknownKey));
    let mut e2 = env();
    assert_eq!(Handler::finish_retr(&mut e2, GetOutcome::Failed(-1)), Err(StorageError::Database(-1)));
    assert!(e2.stack.is_empty());
}

#[test]
fn retrieve_without_transaction() {
    let mut h = Handler::new();
    let mut e = env();
    e.stack.push(b"k".to_vec());
    assert!(matches!(h.handle_retr(&mut e, &op(Op::Retr), 1), Err(StorageError::NoTransaction)));
    assert!(matches!(h.handle_assoc(&mut e, &op(Op::Assoc), 1), Err(StorageError::NoTransaction)));
    assert_eq!(e.stack.len(), 1);
}

#[test]
fn foreign_cursor_is_refused_then_invalid() {
    let mut m = Machine::new();
    write_pairs(&mut m, &[(b"a", b"1")], 1);
    // while process 1 writes, process 2 is told to retry
    let mut e1 = open_write(&mut m, 1);
    let token = open_cursor(&mut m, &mut e1, 1);
    let mut e2 = env();
    assert_eq!(cursor_op(&mut m, &mut e2, 2, &token, Motion::First, Form::Fetch), Err(StorageError::Reschedule));
    assert_eq!(e2.stack, vec![token.clone()]);
    e2.stack.clear();
    // the write transaction ends: the token names nothing any more
    m.exec(&mut e1, &op(Op::WriteEnd), 1).unwrap();
    let mut n1 = env();
    let mut n2 = env();
    assert_eq!(cursor_op(&mut m, &mut n1, 1, &token, Motion::Next, Form::Test), Err(StorageError::InvalidValue));
    assert_eq!(cursor_op(&mut m, &mut n2, 2, &token, Motion::Next, Form::Test), Err(StorageError::InvalidValue));
    let mut r1 = open_read(&mut m, 1);
    assert_eq!(cursor_op(&mut m, &mut r1, 1, &token, Motion::First, Form::Fetch), Err(StorageError::InvalidValue));
    m.exec(&mut r1, &op(Op::ReadEnd), 1).unwrap();
    let mut r2 = open_read(&mut m, 2);
    assert_eq!(cursor_op(&mut m, &mut r2, 2, &token, Motion::First, Form::Fetch), Err(StorageError::InvalidValue));
}

#[test]
fn read_cursor_of_other_reader_is_invalid() {
    let mut m = Machine::new();
    write_pairs(&mut m, &[(b"a", b"1")], 1);
    let mut r1 = open_read(&mut m, 1);
    let token = open_cursor(&mut m, &mut r1, 1);
    let mut e3 = env();
    assert_eq!(cursor_op(&mut m, &mut e3, 3, &token, Motion::First, Form::Test), Err(StorageError::Reschedule));
    let mut e2 = env();
    e2.stack.push(vec![0xff, 0]);
    assert_eq!(m.exec(&mut e2, &op(Op::Read), 2), Err(StorageError::Reschedule));
    assert_eq!(cursor_op(&mut m, &mut r1, 1, b"short", Motion::First, Form::Test), Err(StorageError::InvalidValue));
}

#[test]
fn fetch_and_test_forms_move_alike() {
    let mut m = Machine::new();
    write_pairs(&mut m, &[(b"a", b"v1"), (b"b", b"v2"), (b"c", b"v3")], 1);
    let mut e = open_read(&mut m, 1);
    let t = open_cursor(&mut m, &mut e, 1);
    assert_eq!(cursor_op(&mut m, &mut e, 1, &t, Motion::First, Form::Fetch).unwrap(), pair(b"a", b"v1"));
    assert_eq!(cursor_op(&mut m, &mut e, 1, &t, Motion::Next, Form::Test).unwrap(), vec![1u8]);
    assert_eq!(cursor_op(&mut m, &mut e, 1, &t, Motion::Next, Form::Fetch).unwrap(), pair(b"c", b"v3"));
    assert_eq!(cursor_op(&mut m, &mut e, 1, &t, Motion::Next, Form::Test).unwrap(), vec![0u8]);
    assert_eq!(cursor_op(&mut m, &mut e, 1, &t, Motion::Current, Form::Fetch).unwrap(), pair(b"c", b"v3"));
    assert_eq!(cursor_op(&mut m, &mut e, 1, &t, Motion::Prev, Form::Fetch).unwrap(), pair(b"b", b"v2"));
    assert_eq!(cursor_op(&mut m, &mut e, 1, &t, Motion::Last, Form::Test).unwrap(), vec![1u8]);
    e.stack.push(t.clone());
    e.stack.push(b"b".to_vec());
    m.exec(&mut e, &op(Op::Move(Motion::Seek, Form::Fetch)), 1).unwrap();
    assert_eq!(e.stack.pop().unwrap(), pair(b"b", b"v2"));
    e.stack.push(t.clone());
    e.stack.push(b"z".to_vec());
    m.exec(&mut e, &op(Op::Move(Motion::Seek, Form::Test)), 1).unwrap();
    assert_eq!(e.stack.pop().unwrap(), vec![0u8]);
}

#[test]
fn scan_after_commit() {
    let mut m = Machine::new();
    write_pairs(&mut m, &[(b"a", b"1"), (b"b", b"2"), (b"c", b"3")], 1);
    let mut e = open_read(&mut m, 2);
    let t = open_cursor(&mut m, &mut e, 2);
    assert_eq!(cursor_op(&mut m, &mut e, 2, &t, Motion::First, Form::Fetch).unwrap(), pair(b"a", b"1"));
    assert_eq!(cursor_op(&mut m, &mut e, 2, &t, Motion::Next, Form::Fetch).unwrap(), pair(b"b", b"2"));
    assert_eq!(cursor_op(&mut m, &mut e, 2, &t, Motion::Next, Form::Fetch).unwrap(), pair(b"c", b"3"));
    assert_eq!(cursor_op(&mut m, &mut e, 2, &t, Motion::Next, Form::Fetch).unwrap(), Vec::<u8>::new());
}

#[test]
fn failed_write_block_rolls_back() {
    let mut m = Machine::new();
    let b = m.block(vec![
        push(b"a"),
        push(b"1"),
        Step::Run(Op::Assoc),
        push(b"b"),
        Step::Run(Op::Assoc),
        Step::Run(Op::Commit),
    ]);
    let mut e = env();
    let r = m.run(&mut e, vec![Step::Push(b), Step::Run(Op::Write)], 1);
    assert_eq!(r, Err(StorageError::EmptyStack));
    assert!(m.engine.committed.is_empty());
    assert_eq!(m.handler.write_owner, None);
}

#[test]
fn read_epoch_bars_newcomers() {
    let mut h = Handler::new();
    let mut e = env();
    e.stack.push(vec![0xff, 0]);
    h.begin_read(&mut e, 1).unwrap();
    assert_eq!(e.program.len(), 2);
    assert_eq!(e.program[0], op(Op::ReadEnd));
    assert_eq!(e.program[1], vec![0xff, 0]);
    let mut e2 = env();
    e2.stack.push(vec![0xff, 1]);
    assert!(matches!(h.handle_read(&mut e2, &op(Op::Read), 2), Err(StorageError::Reschedule)));
    assert!(matches!(h.handle_read(&mut e2, &op(Op::ReadEnd), 2), Err(StorageError::Reschedule)));
    assert!(matches!(h.handle_read(&mut e2, &op(Op::Read), 1), Ok(Action::OpenRead)));
    assert!(matches!(h.handle_read(&mut e2, &op(Op::ReadEnd), 1), Ok(Action::CloseRead)));
    assert!(h.readers.is_empty());
    assert!(matches!(h.handle_read(&mut e2, &op(Op::Read), 2), Ok(Action::OpenRead)));
}

#[test]
fn empty_stack_is_reported() {
    let mut h = Handler::new();
    let mut e = env();
    assert!(matches!(h.handle_write(&mut e, &op(Op::Write), 1), Err(StorageError::EmptyStack)));
    assert!(matches!(h.handle_read(&mut e, &op(Op::Read), 1), Err(StorageError::EmptyStack)));
}

#[test]
fn cursor_needs_a_transaction_and_an_open_engine_cursor() {
    let mut h = Handler::new();
    let mut e = env();
    assert!(matches!(h.handle_cursor(&mut e, &op(Op::Cursor), 1), Err(StorageError::NoTransaction)));
    e.stack.push(vec![0xff, 0]);
    h.begin_read(&mut e, 1).unwrap();
    assert_eq!(h.finish_cursor(&mut e, 1, Err(-30787)), Err(StorageError::Database(-30787)));
    assert!(h.cursors.is_empty());
    assert_eq!(h.finish_cursor(&mut e, 1, Ok(())), Ok(0));
    assert_eq!(h.finish_cursor(&mut e, 1, Ok(())), Ok(1));
    assert_eq!(e.stack.pop().unwrap(), cursor_token(1, 1));
}

#[test]
fn exiting_writer_frees_the_slot() {
    let mut m = Machine::new();
    let mut e1 = open_write(&mut m, 1);
    let _t = open_cursor(&mut m, &mut e1, 1);
    let released = m.handler.done(1);
    assert!(released.write);
    assert!(!released.read);
    assert_eq!(m.handler.write_owner, None);
    assert!(m.handler.cursors.is_empty());
    assert_eq!(m.handler.done(1), pumpkin_storage::dispatch::Released { read: false, write: false });
}

#[test]
fn writer_cannot_move_a_readers_cursor() {
    let mut m = Machine::new();
    write_pairs(&mut m, &[(b"a", b"1")], 1);
    let mut r1 = open_read(&mut m, 1);
    let token = open_cursor(&mut m, &mut r1, 1);
    let mut w2 = open_write(&mut m, 2);
    w2.stack.push(token.clone());
    w2.stack.push(b"a".to_vec());
    assert_eq!(m.exec(&mut w2, &op(Op::Move(Motion::Seek, Form::Fetch)), 2), Err(StorageError::Reschedule));
    assert_eq!(w2.stack, vec![token.clone(), b"a".to_vec()]);
    // while the slot is held, the reader waits too; afterwards its cursor works
    assert_eq!(cursor_op(&mut m, &mut r1, 1, &token, Motion::First, Form::Fetch), Err(StorageError::Reschedule));
    r1.stack.clear();
    m.exec(&mut w2, &op(Op::WriteEnd), 2).unwrap();
    assert_eq!(cursor_op(&mut m, &mut r1, 1, &token, Motion::First, Form::Fetch).unwrap(), pair(b"a", b"1"));
}

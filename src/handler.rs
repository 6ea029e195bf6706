//! The instructions of the storage family. Each one first checks ownership
//! and epoch, then changes state and names the work the storage engine is to
//! do; what the engine reports back is turned into the instruction's result
//! by the `finish_*` functions.
use vstd::prelude::*;
use crate::opcode::{Op, Motion, Form, op_code, op_of, code_of, decode_op};
use crate::state::{Handler, Env, StorageError, TxKind, CursorEntry, purged, without, doomed,
    lemma_purged_members, lemma_without_members};

verus! {

/// What the storage engine is to do for an instruction that got through its
/// checks.
#[derive(Debug)]
pub enum Action {
    /// Take the writer lock without waiting and open a write transaction,
    /// then call `begin_write`.
    AcquireWrite,
    /// Drop the write transaction without committing and release the lock.
    ReleaseWrite,
    /// Open a read transaction, then call `begin_read`.
    OpenRead,
    /// Drop the read transaction of the process.
    CloseRead,
    /// Store the pair in the write transaction unless the key is present,
    /// then call `finish_assoc`.
    Put { key: Vec<u8>, value: Vec<u8> },
    /// Look the key up in the transaction of that kind, then call
    /// `finish_assocq` when `probe` is set (ASSOC?), else `finish_retr`.
    Get { kind: TxKind, key: Vec<u8>, probe: bool },
    /// Commit the write transaction and release the lock, then call
    /// `finish_commit`.
    Commit,
    /// Open a cursor in the transaction of that kind, then call
    /// `finish_cursor`.
    OpenCursor { kind: TxKind },
    /// Position cursor `id` in the transaction of that kind (at or after
    /// `seek` for a seek), then call `finish_move`.
    Move { kind: TxKind, id: u64, motion: Motion, form: Form, seek: Option<Vec<u8>> },
}

/// What the engine reports for a put that does not overwrite.
#[derive(PartialEq, Eq, Structural, Clone, Copy, Debug)]
pub enum PutOutcome {
    Stored,
    KeyExists,
    Failed(i32),
}

/// What the engine reports for a lookup.
#[derive(Debug)]
pub enum GetOutcome {
    Found(Vec<u8>),
    Missing,
    Failed(i32),
}

/// The value pushed for "true".
pub open spec fn true_bytes() -> Seq<u8> {
    seq![1u8]
}

/// The value pushed for "false".
pub open spec fn false_bytes() -> Seq<u8> {
    seq![0u8]
}

/// `new` is `old` with `block` queued to run next and `marker` after it.
pub open spec fn scheduled(old: Seq<Vec<u8>>, new: Seq<Vec<u8>>, marker: Seq<u8>, block: Seq<u8>) -> bool {
    &&& new.len() == old.len() + 2
    &&& new.subrange(0, old.len() as int) == old
    &&& new[old.len() as int]@ == marker
    &&& new[old.len() + 1int]@ == block
}

/// `new` is `old` with `v` pushed on top.
pub open spec fn pushed(old: Seq<Vec<u8>>, new: Seq<Vec<u8>>, v: Seq<u8>) -> bool {
    &&& new.len() == old.len() + 1
    &&& new.drop_last() == old
    &&& new.last()@ == v
}

fn push_flag(env: &mut Env, flag: bool)
    ensures
        final(env).program == old(env).program,
        pushed(old(env).stack@, final(env).stack@, if flag { true_bytes() } else { false_bytes() }),
{
    let v: Vec<u8> = if flag { vec![1u8] } else { vec![0u8] };
    assert(v@ =~= if flag { true_bytes() } else { false_bytes() });
    env.stack.push(v);
    assert(env.stack@.drop_last() =~= old(env).stack@);
}

/// Queues `block` to run next, followed by `marker`.
fn schedule(env: &mut Env, marker: Op, block: Vec<u8>)
    ensures
        final(env).stack == old(env).stack,
        scheduled(old(env).program@, final(env).program@, op_code(marker), block@),
{
    env.program.push(code_of(marker));
    env.program.push(block);
    assert(env.program@.subrange(0, old(env).program@.len() as int) =~= old(env).program@);
}

impl Handler {
    /// What WRITE and its end marker do.
    pub open spec fn write_effect(&self, after: Handler, env0: Env, env1: Env, instruction: Seq<u8>, pid: u64, r: Result<Action, StorageError>) -> bool {
        &&& (env1 == env0)
        &&& (instruction != op_code(Op::Write) && instruction != op_code(Op::WriteEnd) ==> r == Err::<Action, StorageError>(StorageError::UnknownInstruction) && after == *self)
        &&& (instruction == op_code(Op::Write) ==> after == *self && (
                if self.write_owner.is_some() {
                    r == Err::<Action, StorageError>(StorageError::Reschedule)
                } else if env0.stack@.len() == 0 {
                    r == Err::<Action, StorageError>(StorageError::EmptyStack)
                } else {
                    r matches Ok(Action::AcquireWrite)
                }))
        &&& (instruction == op_code(Op::WriteEnd) ==> if self.write_barred(pid) {
                r == Err::<Action, StorageError>(StorageError::Reschedule) && after == *self
            } else {
                &&& r matches Ok(Action::ReleaseWrite)
                &&& after.write_owner.is_none()
                &&& after.readers == self.readers
                &&& after.next_cursor == self.next_cursor
                &&& after.cursors@ == purged(self.cursors@, TxKind::Write, None)
            })
    }

    /// What COMMIT does.
    pub open spec fn commit_effect(&self, after: Handler, instruction: Seq<u8>, pid: u64, r: Result<Action, StorageError>) -> bool {
        &&& (instruction != op_code(Op::Commit) ==> r == Err::<Action, StorageError>(StorageError::UnknownInstruction) && after == *self)
        &&& (instruction == op_code(Op::Commit) ==> if self.write_barred(pid) {
                r == Err::<Action, StorageError>(StorageError::Reschedule) && after == *self
            } else if self.write_owner.is_none() {
                r == Err::<Action, StorageError>(StorageError::NoTransaction) && after == *self
            } else {
                &&& r matches Ok(Action::Commit)
                &&& after.write_owner.is_none()
                &&& after.readers == self.readers
                &&& after.next_cursor == self.next_cursor
                &&& after.cursors@ == purged(self.cursors@, TxKind::Write, None)
            })
    }

    /// What READ and its end marker do.
    pub open spec fn read_effect(&self, after: Handler, env0: Env, env1: Env, instruction: Seq<u8>, pid: u64, r: Result<Action, StorageError>) -> bool {
        &&& (env1 == env0)
        &&& (instruction != op_code(Op::Read) && instruction != op_code(Op::ReadEnd) ==> r == Err::<Action, StorageError>(StorageError::UnknownInstruction) && after == *self)
        &&& (instruction == op_code(Op::Read) ==> after == *self && (
                if self.read_barred(pid) {
                    r == Err::<Action, StorageError>(StorageError::Reschedule)
                } else if env0.stack@.len() == 0 {
                    r == Err::<Action, StorageError>(StorageError::EmptyStack)
                } else {
                    r matches Ok(Action::OpenRead)
                }))
        &&& (instruction == op_code(Op::ReadEnd) ==> if self.read_barred(pid) {
                r == Err::<Action, StorageError>(StorageError::Reschedule) && after == *self
            } else {
                &&& r matches Ok(Action::CloseRead)
                &&& after.write_owner == self.write_owner
                &&& after.readers@ == without(self.readers@, pid)
                &&& after.next_cursor == self.next_cursor
                &&& after.cursors@ == purged(self.cursors@, TxKind::Read, Some(pid))
            })
    }

    /// What ASSOC does.
    pub open spec fn assoc_effect(&self, after: Handler, env0: Env, env1: Env, instruction: Seq<u8>, pid: u64, r: Result<Action, StorageError>) -> bool {
        &&& (after == *self)
        &&& (env1.program == env0.program)
        &&& (instruction != op_code(Op::Assoc) ==> r == Err::<Action, StorageError>(StorageError::UnknownInstruction))
        &&& (instruction == op_code(Op::Assoc) && self.write_barred(pid) ==> r == Err::<Action, StorageError>(StorageError::Reschedule))
        &&& (instruction == op_code(Op::Assoc) && self.write_owner.is_none() ==> r == Err::<Action, StorageError>(StorageError::NoTransaction))
        &&& (instruction == op_code(Op::Assoc) && self.write_owner == Some(pid) && env0.stack@.len() < 2 ==> r == Err::<Action, StorageError>(StorageError::EmptyStack))
        &&& (r.is_err() ==> env1 == env0)
        &&& (instruction == op_code(Op::Assoc) && self.write_owner == Some(pid) && env0.stack@.len() >= 2 ==> {
                let n = env0.stack@.len() as int;
                &&& r matches Ok(Action::Put { key, value })
                &&& (r matches Ok(Action::Put { key, value }) ==> key@ == env0.stack@[n - 2]@ && value@ == env0.stack@[n - 1]@)
                &&& env1.stack@ == env0.stack@.subrange(0, n - 2)
            })
    }

    /// What ASSOC? does.
    pub open spec fn assocq_effect(&self, after: Handler, env0: Env, env1: Env, instruction: Seq<u8>, pid: u64, r: Result<Action, StorageError>) -> bool {
        &&& (after == *self)
        &&& (env1.program == env0.program)
        &&& (instruction != op_code(Op::AssocQ) ==> r == Err::<Action, StorageError>(StorageError::UnknownInstruction))
        &&& (instruction == op_code(Op::AssocQ) && self.write_barred(pid) ==> r == Err::<Action, StorageError>(StorageError::Reschedule))
        &&& (instruction == op_code(Op::AssocQ) && !self.write_barred(pid) && self.txn_of(pid).is_none() ==> r == Err::<Action, StorageError>(StorageError::NoTransaction))
        &&& (instruction == op_code(Op::AssocQ) && !self.write_barred(pid) && self.txn_of(pid).is_some() && env0.stack@.len() == 0 ==> r == Err::<Action, StorageError>(StorageError::EmptyStack))
        &&& (r.is_err() ==> env1 == env0)
        &&& (instruction == op_code(Op::AssocQ) && !self.write_barred(pid) && self.txn_of(pid).is_some() && env0.stack@.len() > 0 ==> {
                &&& r matches Ok(Action::Get { kind, key, probe })
                &&& (r matches Ok(Action::Get { kind, key, probe }) ==> probe && Some(kind) == self.txn_of(pid) && key@ == env0.stack@.last()@)
                &&& env1.stack@ == env0.stack@.drop_last()
            })
    }

    /// What RETR does.
    pub open spec fn retr_effect(&self, after: Handler, env0: Env, env1: Env, instruction: Seq<u8>, pid: u64, r: Result<Action, StorageError>) -> bool {
        &&& (after == *self)
        &&& (env1.program == env0.program)
        &&& (instruction != op_code(Op::Retr) ==> r == Err::<Action, StorageError>(StorageError::UnknownInstruction))
        &&& (instruction == op_code(Op::Retr) && (self.write_barred(pid) || self.read_barred(pid)) ==> r == Err::<Action, StorageError>(StorageError::Reschedule))
        &&& (instruction == op_code(Op::Retr) && !self.write_barred(pid) && !self.read_barred(pid) && self.txn_of(pid).is_none() ==> r == Err::<Action, StorageError>(StorageError::NoTransaction))
        &&& (instruction == op_code(Op::Retr) && !self.write_barred(pid) && !self.read_barred(pid) && self.txn_of(pid).is_some() && env0.stack@.len() == 0 ==> r == Err::<Action, StorageError>(StorageError::EmptyStack))
        &&& (r.is_err() ==> env1 == env0)
        &&& (instruction == op_code(Op::Retr) && !self.write_barred(pid) && !self.read_barred(pid) && self.txn_of(pid).is_some() && env0.stack@.len() > 0 ==> {
                &&& r matches Ok(Action::Get { kind, key, probe })
                &&& (r matches Ok(Action::Get { kind, key, probe }) ==> !probe && Some(kind) == self.txn_of(pid) && key@ == env0.stack@.last()@)
                &&& env1.stack@ == env0.stack@.drop_last()
            })
    }

    proof fn lemma_purge_wf(old_h: &Handler, new_h: &Handler, kind: TxKind, pid: Option<u64>)
        requires
            old_h.wf(),
            new_h.cursors@ == purged(old_h.cursors@, kind, pid),
            new_h.next_cursor == old_h.next_cursor,
            new_h.readers@.no_duplicates(),
            forall|e: CursorEntry| old_h.entry_ok(e) && !doomed(e, kind, pid) ==> new_h.entry_ok(e),
        ensures
            new_h.wf(),
    {
        lemma_purged_members(old_h.cursors@, kind, pid);
        assert forall|i: int| 0 <= i < new_h.cursors@.len() implies new_h.entry_ok(#[trigger] new_h.cursors@[i]) by {
            let e = new_h.cursors@[i];
            assert(new_h.cursors@[i] == e);
            assert(purged(old_h.cursors@, kind, pid).contains(e));
            assert(old_h.cursors@.contains(e) && !doomed(e, kind, pid));
            let j = choose|j: int| 0 <= j < old_h.cursors@.len() && old_h.cursors@[j] == e;
            assert(old_h.entry_ok(old_h.cursors@[j]));
        }
        assert forall|a: CursorEntry, b: CursorEntry|
            #[trigger] new_h.cursors@.contains(a) && #[trigger] new_h.cursors@.contains(b) && a.id == b.id implies a == b by {
            assert(purged(old_h.cursors@, kind, pid).contains(a));
            assert(purged(old_h.cursors@, kind, pid).contains(b));
        }
    }

    /// WRITE and its end marker.
    ///
    /// WRITE is refused with `Reschedule` while any process, the caller
    /// included, holds the write slot; otherwise, with a block on the stack, it asks the engine
    /// for the writer lock and a transaction and changes nothing yet. The end
    /// marker drops the write slot and every write cursor without committing.
    pub fn handle_write(&mut self, env: &mut Env, instruction: &[u8], pid: u64) -> (r: Result<Action, StorageError>)
        requires
            old(self).wf(),
        ensures
            final(self).wf(),
            old(self).write_effect(*final(self), *old(env), *final(env), instruction@, pid, r),
    {
        let op = decode_op(instruction);
        match op {
            Some(Op::Write) => {
                if self.write_owner.is_some() {
                    return Err(StorageError::Reschedule);
                }
                if env.stack.len() == 0 {
                    return Err(StorageError::EmptyStack);
                }
                Ok(Action::AcquireWrite)
            },
            Some(Op::WriteEnd) => {
                if self.is_write_barred(pid) {
                    return Err(StorageError::Reschedule);
                }
                self.end_write();
                Ok(Action::ReleaseWrite)
            },
            _ => {
                proof {
                    if instruction@ == op_code(Op::Write) || instruction@ == op_code(Op::WriteEnd) {
                        assert(op_of(op_code(Op::Write)) == Some(Op::Write));
                        assert(op_of(op_code(Op::WriteEnd)) == Some(Op::WriteEnd));
                    }
                }
                Err(StorageError::UnknownInstruction)
            },
        }
    }

    /// Drops the write slot and every write cursor.
    pub(crate) fn end_write(&mut self)
        requires
            old(self).wf(),
        ensures
            final(self).wf(),
            final(self).write_owner.is_none(),
            final(self).readers == old(self).readers,
            final(self).next_cursor == old(self).next_cursor,
            final(self).cursors@ == purged(old(self).cursors@, TxKind::Write, None),
    {
        let ghost before = *self;
        self.purge(TxKind::Write, None);
        self.write_owner = None;
        proof {
            Handler::lemma_purge_wf(&before, self, TxKind::Write, None);
        }
    }

    /// Called once the engine granted the writer lock and opened a write
    /// transaction for `pid`: takes the block from the stack, gives `pid`
    /// the write slot, and queues the block followed by the end marker.
    pub fn begin_write(&mut self, env: &mut Env, pid: u64) -> (r: Result<(), StorageError>)
        requires
            old(self).wf(),
        ensures
            final(self).wf(),
            old(self).write_owner.is_some() ==> r == Err::<(), StorageError>(StorageError::Reschedule),
            old(self).write_owner.is_none() && old(env).stack@.len() == 0 ==> r == Err::<(), StorageError>(StorageError::EmptyStack),
            r.is_err() ==> *final(self) == *old(self) && *final(env) == *old(env),
            old(self).write_owner.is_none() && old(env).stack@.len() > 0 ==> {
                &&& r == Ok::<(), StorageError>(())
                &&& final(self).write_owner == Some(pid)
                &&& final(self).readers == old(self).readers
                &&& final(self).cursors == old(self).cursors
                &&& final(self).next_cursor == old(self).next_cursor
                &&& final(env).stack@ == old(env).stack@.drop_last()
                &&& scheduled(old(env).program@, final(env).program@, op_code(Op::WriteEnd), old(env).stack@.last()@)
            },
    {
        if self.write_owner.is_some() {
            return Err(StorageError::Reschedule);
        }
        if env.stack.len() == 0 {
            return Err(StorageError::EmptyStack);
        }
        let block = env.stack.pop().unwrap();
        self.write_owner = Some(pid);
        proof {
            assert forall|i: int| 0 <= i < self.cursors@.len() implies self.entry_ok(#[trigger] self.cursors@[i]) by {
                assert(old(self).entry_ok(old(self).cursors@[i]));
            }
        }
        schedule(env, Op::WriteEnd, block);
        Ok(())
    }

    /// COMMIT: by the holder of the write slot, drops the slot and the write
    /// cursors and asks the engine to commit; by another process while the
    /// slot is held, `Reschedule`; with no write transaction, `NoTransaction`.
    pub fn handle_commit(&mut self, instruction: &[u8], pid: u64) -> (r: Result<Action, StorageError>)
        requires
            old(self).wf(),
        ensures
            final(self).wf(),
            old(self).commit_effect(*final(self), instruction@, pid, r),
    {
        let op = decode_op(instruction);
        if op != Some(Op::Commit) {
            proof {
                assert(op_of(op_code(Op::Commit)) == Some(Op::Commit));
            }
            return Err(StorageError::UnknownInstruction);
        }
        if self.is_write_barred(pid) {
            return Err(StorageError::Reschedule);
        }
        if self.write_owner.is_none() {
            return Err(StorageError::NoTransaction);
        }
        self.end_write();
        Ok(Action::Commit)
    }

    /// The result of COMMIT once the engine committed (`Ok`) or failed with
    /// an error code.
    pub fn finish_commit(committed: Result<(), i32>) -> (r: Result<(), StorageError>)
        ensures
            r == match committed {
                Ok(()) => Ok::<(), StorageError>(()),
                Err(c) => Err(StorageError::Database(c)),
            },
    {
        match committed {
            Ok(()) => Ok(()),
            Err(c) => Err(StorageError::Database(c)),
        }
    }

    /// READ and its end marker.
    ///
    /// READ is refused with `Reschedule` while a read epoch runs that `pid`
    /// is not part of; otherwise, with a block on the stack, it asks the
    /// engine for a read transaction and changes nothing yet. The end marker
    /// drops `pid` from the epoch together with its read cursors.
    pub fn handle_read(&mut self, env: &mut Env, instruction: &[u8], pid: u64) -> (r: Result<Action, StorageError>)
        requires
            old(self).wf(),
        ensures
            final(self).wf(),
            old(self).read_effect(*final(self), *old(env), *final(env), instruction@, pid, r),
    {
        let op = decode_op(instruction);
        match op {
            Some(Op::Read) => {
                if self.is_read_barred(pid) {
                    return Err(StorageError::Reschedule);
                }
                if env.stack.len() == 0 {
                    return Err(StorageError::EmptyStack);
                }
                Ok(Action::OpenRead)
            },
            Some(Op::ReadEnd) => {
                if self.is_read_barred(pid) {
                    return Err(StorageError::Reschedule);
                }
                self.end_read(pid);
                Ok(Action::CloseRead)
            },
            _ => {
                proof {
                    assert(op_of(op_code(Op::Read)) == Some(Op::Read));
                    assert(op_of(op_code(Op::ReadEnd)) == Some(Op::ReadEnd));
                }
                Err(StorageError::UnknownInstruction)
            },
        }
    }

    /// Drops `pid` from the read epoch, with its read cursors.
    pub(crate) fn end_read(&mut self, pid: u64)
        requires
            old(self).wf(),
        ensures
            final(self).wf(),
            final(self).write_owner == old(self).write_owner,
            final(self).readers@ == without(old(self).readers@, pid),
            final(self).next_cursor == old(self).next_cursor,
            final(self).cursors@ == purged(old(self).cursors@, TxKind::Read, Some(pid)),
    {
        let ghost before = *self;
        self.purge(TxKind::Read, Some(pid));
        self.drop_reader(pid);
        proof {
            lemma_without_members(before.readers@, pid);
            Handler::lemma_purge_wf(&before, self, TxKind::Read, Some(pid));
        }
    }

    /// Called once the engine opened a read transaction for `pid`: takes the
    /// block from the stack, adds `pid` to the read epoch, and queues the
    /// block followed by the end marker.
    pub fn begin_read(&mut self, env: &mut Env, pid: u64) -> (r: Result<(), StorageError>)
        requires
            old(self).wf(),
        ensures
            final(self).wf(),
            old(self).read_barred(pid) ==> r == Err::<(), StorageError>(StorageError::Reschedule),
            !old(self).read_barred(pid) && old(env).stack@.len() == 0 ==> r == Err::<(), StorageError>(StorageError::EmptyStack),
            r.is_err() ==> *final(self) == *old(self) && *final(env) == *old(env),
            !old(self).read_barred(pid) && old(env).stack@.len() > 0 ==> {
                &&& r == Ok::<(), StorageError>(())
                &&& final(self).write_owner == old(self).write_owner
                &&& final(self).readers@.to_set() == old(self).readers@.to_set().insert(pid)
                &&& final(self).cursors == old(self).cursors
                &&& final(self).next_cursor == old(self).next_cursor
                &&& final(env).stack@ == old(env).stack@.drop_last()
                &&& scheduled(old(env).program@, final(env).program@, op_code(Op::ReadEnd), old(env).stack@.last()@)
            },
    {
        if self.is_read_barred(pid) {
            return Err(StorageError::Reschedule);
        }
        if env.stack.len() == 0 {
            return Err(StorageError::EmptyStack);
        }
        let block = env.stack.pop().unwrap();
        if !self.is_reader(pid) {
            self.readers.push(pid);
            proof {
                assert(self.readers@.drop_last() == old(self).readers@);
                assert forall|i: int, j: int| 0 <= i < self.readers@.len() && 0 <= j < self.readers@.len() && i != j
                    implies self.readers@[i] != self.readers@[j] by {
                    if i < old(self).readers@.len() && j < old(self).readers@.len() {
                        assert(self.readers@[i] == old(self).readers@[i]);
                        assert(self.readers@[j] == old(self).readers@[j]);
                    } else if i < old(self).readers@.len() {
                        assert(old(self).readers@.contains(self.readers@[i]));
                    } else {
                        assert(old(self).readers@.contains(self.readers@[j]));
                    }
                }
                assert forall|i: int| 0 <= i < self.cursors@.len() implies self.entry_ok(#[trigger] self.cursors@[i]) by {
                    let e = self.cursors@[i];
                    assert(old(self).entry_ok(old(self).cursors@[i]));
                    if e.kind == TxKind::Read {
                        let k = choose|k: int| 0 <= k < old(self).readers@.len() && old(self).readers@[k] == e.pid;
                        assert(self.readers@[k] == e.pid);
                    }
                }
            }
        }
        proof {
            assert(self.readers@.to_set() =~= old(self).readers@.to_set().insert(pid)) by {
                assert forall|x: u64| self.readers@.contains(x) <==> (old(self).readers@.contains(x) || x == pid) by {
                    if !old(self).readers@.contains(pid) {
                        if self.readers@.contains(x) {
                            let k = choose|k: int| 0 <= k < self.readers@.len() && self.readers@[k] == x;
                            if k < old(self).readers@.len() {
                                assert(old(self).readers@[k] == x);
                            }
                        }
                        if old(self).readers@.contains(x) {
                            let k = choose|k: int| 0 <= k < old(self).readers@.len() && old(self).readers@[k] == x;
                            assert(self.readers@[k] == x);
                        }
                        assert(self.readers@[old(self).readers@.len() as int] == pid);
                    }
                }
            }
        }
        schedule(env, Op::ReadEnd, block);
        Ok(())
    }

    /// ASSOC: pops a value and under it a key, and asks the engine to store
    /// the pair in the write transaction of `pid`.
    pub fn handle_assoc(&mut self, env: &mut Env, instruction: &[u8], pid: u64) -> (r: Result<Action, StorageError>)
        requires
            old(self).wf(),
        ensures
            final(self).wf(),
            old(self).assoc_effect(*final(self), *old(env), *final(env), instruction@, pid, r),
    {
        if decode_op(instruction) != Some(Op::Assoc) {
            proof {
                assert(op_of(op_code(Op::Assoc)) == Some(Op::Assoc));
            }
            return Err(StorageError::UnknownInstruction);
        }
        if self.is_write_barred(pid) {
            return Err(StorageError::Reschedule);
        }
        if self.write_owner.is_none() {
            return Err(StorageError::NoTransaction);
        }
        if env.stack.len() < 2 {
            return Err(StorageError::EmptyStack);
        }
        let value = env.stack.pop().unwrap();
        let key = env.stack.pop().unwrap();
        assert(env.stack@ =~= old(env).stack@.subrange(0, old(env).stack@.len() - 2));
        Ok(Action::Put { key, value })
    }

    /// The result of ASSOC once the engine tried the put: a present key is
    /// `DuplicateKey` (the engine stored nothing), a failure is `Database`.
    pub fn finish_assoc(outcome: PutOutcome) -> (r: Result<(), StorageError>)
        ensures
            r == match outcome {
                PutOutcome::Stored => Ok::<(), StorageError>(()),
                PutOutcome::KeyExists => Err(StorageError::DuplicateKey),
                PutOutcome::Failed(c) => Err(StorageError::Database(c)),
            },
    {
        match outcome {
            PutOutcome::Stored => Ok(()),
            PutOutcome::KeyExists => Err(StorageError::DuplicateKey),
            PutOutcome::Failed(c) => Err(StorageError::Database(c)),
        }
    }

    /// Pops a key for a lookup in the transaction of `pid`, once the checks
    /// of the instruction passed.
    fn lookup(&self, env: &mut Env, pid: u64, flag: bool) -> (r: Result<Action, StorageError>)
        ensures
            final(env).program == old(env).program,
            self.txn_of(pid).is_none() ==> r == Err::<Action, StorageError>(StorageError::NoTransaction),
            self.txn_of(pid).is_some() && old(env).stack@.len() == 0 ==> r == Err::<Action, StorageError>(StorageError::EmptyStack),
            r.is_err() ==> *final(env) == *old(env),
            self.txn_of(pid).is_some() && old(env).stack@.len() > 0 ==> {
                &&& r matches Ok(Action::Get { kind, key, probe })
                &&& (r matches Ok(Action::Get { kind, key, probe }) ==> probe == flag && Some(kind) == self.txn_of(pid) && key@ == old(env).stack@.last()@)
                &&& final(env).stack@ == old(env).stack@.drop_last()
            },
    {
        let kind = match self.txn_kind(pid) {
            Some(k) => k,
            None => return Err(StorageError::NoTransaction),
        };
        if env.stack.len() == 0 {
            return Err(StorageError::EmptyStack);
        }
        let key = env.stack.pop().unwrap();
        Ok(Action::Get { kind, key, probe: flag })
    }

    /// ASSOC?: pops a key and asks the engine whether the transaction of
    /// `pid` holds it. Only the write slot bars it.
    pub fn handle_assocq(&mut self, env: &mut Env, instruction: &[u8], pid: u64) -> (r: Result<Action, StorageError>)
        requires
            old(self).wf(),
        ensures
            final(self).wf(),
            old(self).assocq_effect(*final(self), *old(env), *final(env), instruction@, pid, r),
    {
        if decode_op(instruction) != Some(Op::AssocQ) {
            proof {
                assert(op_of(op_code(Op::AssocQ)) == Some(Op::AssocQ));
            }
            return Err(StorageError::UnknownInstruction);
        }
        if self.is_write_barred(pid) {
            return Err(StorageError::Reschedule);
        }
        self.lookup(env, pid, true)
    }

    /// The result of ASSOC? once the engine looked the key up: `true` or
    /// `false` pushed, or `Database` on failure.
    pub fn finish_assocq(env: &mut Env, outcome: GetOutcome) -> (r: Result<(), StorageError>)
        ensures
            final(env).program == old(env).program,
            outcome matches GetOutcome::Found(_) ==> r == Ok::<(), StorageError>(()) && pushed(old(env).stack@, final(env).stack@, true_bytes()),
            outcome matches GetOutcome::Missing ==> r == Ok::<(), StorageError>(()) && pushed(old(env).stack@, final(env).stack@, false_bytes()),
            outcome matches GetOutcome::Failed(c) ==> r == Err::<(), StorageError>(StorageError::Database(c)) && *final(env) == *old(env),
    {
        match outcome {
            GetOutcome::Found(_) => {
                push_flag(env, true);
                Ok(())
            },
            GetOutcome::Missing => {
                push_flag(env, false);
                Ok(())
            },
            GetOutcome::Failed(c) => Err(StorageError::Database(c)),
        }
    }

    /// RETR: pops a key and asks the engine for its value in the transaction
    /// of `pid`. Barred by the write slot and by a foreign read epoch.
    pub fn handle_retr(&mut self, env: &mut Env, instruction: &[u8], pid: u64) -> (r: Result<Action, StorageError>)
        requires
            old(self).wf(),
        ensures
            final(self).wf(),
            old(self).retr_effect(*final(self), *old(env), *final(env), instruction@, pid, r),
    {
        if decode_op(instruction) != Some(Op::Retr) {
            proof {
                assert(op_of(op_code(Op::Retr)) == Some(Op::Retr));
            }
            return Err(StorageError::UnknownInstruction);
        }
        if self.is_write_barred(pid) || self.is_read_barred(pid) {
            return Err(StorageError::Reschedule);
        }
        self.lookup(env, pid, false)
    }

    /// The result of RETR once the engine looked the key up: the stored bytes
    /// pushed exactly, `UnknownKey` for an absent key, `Database` on failure.
    pub fn finish_retr(env: &mut Env, outcome: GetOutcome) -> (r: Result<(), StorageError>)
        ensures
            final(env).program == old(env).program,
            outcome matches GetOutcome::Found(v) ==> r == Ok::<(), StorageError>(()) && pushed(old(env).stack@, final(env).stack@, v@),
            outcome matches GetOutcome::Missing ==> r == Err::<(), StorageError>(StorageError::UnknownKey) && *final(env) == *old(env),
            outcome matches GetOutcome::Failed(c) ==> r == Err::<(), StorageError>(StorageError::Database(c)) && *final(env) == *old(env),
    {
        match outcome {
            GetOutcome::Found(v) => {
                env.stack.push(v);
                assert(env.stack@.drop_last() =~= old(env).stack@);
                Ok(())
            },
            GetOutcome::Missing => Err(StorageError::UnknownKey),
            GetOutcome::Failed(c) => Err(StorageError::Database(c)),
        }
    }
}

} // verus!

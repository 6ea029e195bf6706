//! Routing an instruction to its handler, and the cleanup run when a
//! process exits.
use vstd::prelude::*;
use crate::handler::Action;
use crate::opcode::{Op, Motion, op_of, decode_op};
use crate::state::{Handler, Env, StorageError, TxKind, purged, without, doomed,
    lemma_without_members, lemma_without_absent, lemma_purged_nothing};

verus! {

/// What a process held when it exited; the engine is to drop those
/// transactions (a write transaction without committing).
#[derive(PartialEq, Eq, Structural, Clone, Copy, Debug)]
pub struct Released {
    pub read: bool,
    pub write: bool,
}

impl Handler {
    /// Runs one instruction of `pid`. An instruction outside the storage
    /// family is `UnknownInstruction` and changes nothing; any other is
    /// handled by the handler of its kind.
    pub fn handle(&mut self, env: &mut Env, instruction: &[u8], pid: u64) -> (r: Result<Action, StorageError>)
        requires
            old(self).wf(),
        ensures
            final(self).wf(),
            op_of(instruction@).is_none() ==> r == Err::<Action, StorageError>(StorageError::UnknownInstruction)
                && *final(self) == *old(self) && *final(env) == *old(env),
            op_of(instruction@).is_some() ==> r != Err::<Action, StorageError>(StorageError::UnknownInstruction),
            op_of(instruction@) == Some(Op::Write) || op_of(instruction@) == Some(Op::WriteEnd)
                ==> old(self).write_effect(*final(self), *old(env), *final(env), instruction@, pid, r),
            op_of(instruction@) == Some(Op::Read) || op_of(instruction@) == Some(Op::ReadEnd)
                ==> old(self).read_effect(*final(self), *old(env), *final(env), instruction@, pid, r),
            op_of(instruction@) == Some(Op::Assoc) ==> old(self).assoc_effect(*final(self), *old(env), *final(env), instruction@, pid, r),
            op_of(instruction@) == Some(Op::AssocQ) ==> old(self).assocq_effect(*final(self), *old(env), *final(env), instruction@, pid, r),
            op_of(instruction@) == Some(Op::Retr) ==> old(self).retr_effect(*final(self), *old(env), *final(env), instruction@, pid, r),
            op_of(instruction@) == Some(Op::Commit) ==> *final(env) == *old(env)
                && old(self).commit_effect(*final(self), instruction@, pid, r),
            op_of(instruction@) == Some(Op::Cursor) ==> old(self).cursor_effect(*final(self), *old(env), *final(env), instruction@, pid, r),
            op_of(instruction@) matches Some(Op::Move(m, f)) ==> *final(self) == *old(self)
                && final(env).program == old(env).program
                && old(self).moved(old(env).stack@, final(env).stack@, pid, m, f, r),
    {
        let op = decode_op(instruction);
        match op {
            None => Err(StorageError::UnknownInstruction),
            Some(Op::Write) | Some(Op::WriteEnd) => self.handle_write(env, instruction, pid),
            Some(Op::Read) | Some(Op::ReadEnd) => self.handle_read(env, instruction, pid),
            Some(Op::Assoc) => self.handle_assoc(env, instruction, pid),
            Some(Op::AssocQ) => self.handle_assocq(env, instruction, pid),
            Some(Op::Retr) => self.handle_retr(env, instruction, pid),
            Some(Op::Commit) => self.handle_commit(instruction, pid),
            Some(Op::Cursor) => self.handle_cursor(env, instruction, pid),
            Some(Op::Move(Motion::First, _)) => self.handle_cursor_first(env, instruction, pid),
            Some(Op::Move(Motion::Next, _)) => self.handle_cursor_next(env, instruction, pid),
            Some(Op::Move(Motion::Prev, _)) => self.handle_cursor_prev(env, instruction, pid),
            Some(Op::Move(Motion::Last, _)) => self.handle_cursor_last(env, instruction, pid),
            Some(Op::Move(Motion::Seek, _)) => self.handle_cursor_seek(env, instruction, pid),
            Some(Op::Move(Motion::Current, _)) => self.handle_cursor_cur(env, instruction, pid),
        }
    }

    /// Cleanup when `pid` exits: it leaves the read epoch with its read
    /// cursors, and if it held the write slot the slot is freed and every
    /// write cursor dropped.
    pub fn done(&mut self, pid: u64) -> (r: Released)
        requires
            old(self).wf(),
        ensures
            final(self).wf(),
            r.read == old(self).readers@.contains(pid),
            r.write == (old(self).write_owner == Some(pid)),
            final(self).readers@ == without(old(self).readers@, pid),
            final(self).next_cursor == old(self).next_cursor,
            final(self).write_owner == if r.write { None } else { old(self).write_owner },
            final(self).cursors@ == if r.write {
                purged(purged(old(self).cursors@, TxKind::Read, Some(pid)), TxKind::Write, None)
            } else {
                purged(old(self).cursors@, TxKind::Read, Some(pid))
            },
    {
        let read = self.is_reader(pid);
        let write = self.write_owner == Some(pid);
        self.end_read(pid);
        if write {
            self.end_write();
        }
        Released { read, write }
    }
}

/// The exit cleanup is idempotent: once it ran for a process, running it
/// again for that process releases nothing and changes nothing.
pub proof fn lemma_done_idempotent(h: Handler, once: Handler, r: Released, pid: u64)
    requires
        h.wf(),
        once.wf(),
        r.write == (h.write_owner == Some(pid)),
        once.readers@ == without(h.readers@, pid),
        once.next_cursor == h.next_cursor,
        once.write_owner == if r.write { None } else { h.write_owner },
        once.cursors@ == if r.write {
            purged(purged(h.cursors@, TxKind::Read, Some(pid)), TxKind::Write, None)
        } else {
            purged(h.cursors@, TxKind::Read, Some(pid))
        },
    ensures
        !once.readers@.contains(pid),
        once.write_owner != Some(pid),
        without(once.readers@, pid) == once.readers@,
        purged(once.cursors@, TxKind::Read, Some(pid)) == once.cursors@,
{
    lemma_without_members(h.readers@, pid);
    lemma_without_absent(once.readers@, pid);
    assert forall|i: int| 0 <= i < once.cursors@.len() implies !doomed(#[trigger] once.cursors@[i], TxKind::Read, Some(pid)) by {
        let e = once.cursors@[i];
        assert(once.entry_ok(once.cursors@[i]));
    }
    lemma_purged_nothing(once.cursors@, TxKind::Read, Some(pid));
}

} // verus!

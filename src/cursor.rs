//! The cursor instructions: opening a cursor, and positioning one in its
//! fetching and testing forms.
use vstd::prelude::*;
use crate::codec::{encode_pair, pair_bytes, MAX_ENCODED_SIZE};
use crate::handler::{Action, pushed, true_bytes, false_bytes};
use crate::opcode::{Op, Motion, Form, op_code, op_of, decode_op};
use crate::state::{Handler, Env, StorageError, TxKind, CursorEntry};
use crate::token::{token_bytes, token_parts, cursor_token, token_parts_of, lemma_token_parts};

verus! {

/// The engine code for a cursor that cannot be opened (MDB_CURSOR_FULL),
/// used once every cursor id has been handed out.
pub const CURSOR_FULL: i32 = -30787;

/// How many values a positioning instruction takes from the stack.
pub open spec fn operands(motion: Motion) -> nat {
    if motion == Motion::Seek { 2 } else { 1 }
}

impl Handler {
    /// What CURSOR does.
    pub open spec fn cursor_effect(&self, after: Handler, env0: Env, env1: Env, instruction: Seq<u8>, pid: u64, r: Result<Action, StorageError>) -> bool {
        &&& (after == *self)
        &&& (env1 == env0)
        &&& (instruction != op_code(Op::Cursor) ==> r == Err::<Action, StorageError>(StorageError::UnknownInstruction))
        &&& (instruction == op_code(Op::Cursor) ==> if self.write_barred(pid) || self.read_barred(pid) {
                r == Err::<Action, StorageError>(StorageError::Reschedule)
            } else if self.txn_of(pid).is_none() {
                r == Err::<Action, StorageError>(StorageError::NoTransaction)
            } else {
                r matches Ok(Action::OpenCursor { kind }) && Some(kind) == self.txn_of(pid)
            })
    }

    /// The cursor a positioning instruction of `pid` works on, and the kind
    /// of transaction it works in, given the stack before the instruction.
    /// The token lies under the seek key for a seek, on top otherwise. A
    /// token naming a live cursor of another process is told to retry; one
    /// naming no live cursor of `pid` is invalid.
    pub open spec fn move_target(&self, stack: Seq<Vec<u8>>, pid: u64, motion: Motion) -> Result<(TxKind, u64), StorageError> {
        let need = operands(motion);
        if self.write_barred(pid) || self.read_barred(pid) {
            Err(StorageError::Reschedule)
        } else if stack.len() < need {
            Err(StorageError::EmptyStack)
        } else {
            match token_parts(stack[stack.len() - need]@) {
                None => Err(StorageError::InvalidValue),
                Some((owner, id)) => {
                    if owner != pid && self.has_cursor(owner, id) {
                        Err(StorageError::Reschedule)
                    } else if owner != pid || !self.has_cursor(pid, id) {
                        Err(StorageError::InvalidValue)
                    } else if self.txn_of(pid).is_none() {
                        Err(StorageError::NoTransaction)
                    } else {
                        Ok((self.txn_of(pid).unwrap(), id))
                    }
                },
            }
        }
    }

    /// What a positioning instruction of `pid` did: `r` and the stack after
    /// it, from the stack `before`.
    pub open spec fn moved(&self, before: Seq<Vec<u8>>, after: Seq<Vec<u8>>, pid: u64, motion: Motion, form: Form, r: Result<Action, StorageError>) -> bool {
        let need = operands(motion) as int;
        match self.move_target(before, pid, motion) {
            Ok((kind, id)) => {
                &&& after == before.subrange(0, before.len() - need)
                &&& r matches Ok(Action::Move { kind: k, id: i, motion: m, form: f, seek })
                &&& (r matches Ok(Action::Move { kind: k, id: i, motion: m, form: f, seek }) ==> {
                    &&& k == kind && i == id && m == motion && f == form
                    &&& motion == Motion::Seek ==> (seek matches Some(key) && key@ == before.last()@)
                    &&& motion != Motion::Seek ==> seek.is_none()
                })
            },
            Err(StorageError::InvalidValue) => {
                &&& r == Err::<Action, StorageError>(StorageError::InvalidValue)
                &&& after == before.subrange(0, before.len() - need)
            },
            Err(StorageError::NoTransaction) => {
                &&& r == Err::<Action, StorageError>(StorageError::NoTransaction)
                &&& after == before.subrange(0, before.len() - need)
            },
            Err(e) => r == Err::<Action, StorageError>(e) && after == before,
        }
    }

    fn find_cursor(&self, pid: u64, id: u64) -> (r: bool)
        ensures
            r == self.has_cursor(pid, id),
    {
        let mut i: usize = 0;
        while i < self.cursors.len()
            invariant
                i <= self.cursors@.len(),
                forall|j: int| 0 <= j < i ==> !(self.cursors@[j].pid == pid && self.cursors@[j].id == id),
            decreases self.cursors@.len() - i,
        {
            if self.cursors[i].pid == pid && self.cursors[i].id == id {
                return true;
            }
            i = i + 1;
        }
        false
    }

    /// Checks a positioning instruction and takes its operands: the caller
    /// must hold its transaction, and the token must name one of its cursors.
    fn move_cursor(&self, env: &mut Env, pid: u64, motion: Motion, form: Form) -> (r: Result<Action, StorageError>)
        ensures
            final(env).program == old(env).program,
            self.moved(old(env).stack@, final(env).stack@, pid, motion, form, r),
    {
        let need: usize = if motion == Motion::Seek { 2 } else { 1 };
        if self.is_write_barred(pid) || self.is_read_barred(pid) {
            return Err(StorageError::Reschedule);
        }
        if env.stack.len() < need {
            return Err(StorageError::EmptyStack);
        }
        let parts = token_parts_of(env.stack[env.stack.len() - need].as_slice());
        if let Some((owner, id)) = parts {
            if owner != pid && self.find_cursor(owner, id) {
                return Err(StorageError::Reschedule);
            }
        }
        let seek = if motion == Motion::Seek {
            Some(env.stack.pop().unwrap())
        } else {
            None
        };
        env.stack.pop();
        assert(env.stack@ =~= old(env).stack@.subrange(0, old(env).stack@.len() - need));
        let id = match parts {
            Some((owner, id)) => {
                if owner != pid || !self.find_cursor(pid, id) {
                    return Err(StorageError::InvalidValue);
                }
                id
            },
            None => return Err(StorageError::InvalidValue),
        };
        let kind = match self.txn_kind(pid) {
            Some(k) => k,
            None => return Err(StorageError::NoTransaction),
        };
        Ok(Action::Move { kind, id, motion, form, seek })
    }

    #[verifier::rlimit(60)]
    fn move_op(&self, env: &mut Env, instruction: &[u8], pid: u64, motion: Motion) -> (r: Result<Action, StorageError>)
        ensures
            final(env).program == old(env).program,
            instruction@ == op_code(Op::Move(motion, Form::Fetch)) ==> self.moved(old(env).stack@, final(env).stack@, pid, motion, Form::Fetch, r),
            instruction@ == op_code(Op::Move(motion, Form::Test)) ==> self.moved(old(env).stack@, final(env).stack@, pid, motion, Form::Test, r),
            instruction@ != op_code(Op::Move(motion, Form::Fetch)) && instruction@ != op_code(Op::Move(motion, Form::Test)) ==> r == Err::<Action, StorageError>(StorageError::UnknownInstruction) && *final(env) == *old(env),
    {
        let op = decode_op(instruction);
        proof {
            assert(op_of(op_code(Op::Move(motion, Form::Fetch))) == Some(Op::Move(motion, Form::Fetch)));
            assert(op_of(op_code(Op::Move(motion, Form::Test))) == Some(Op::Move(motion, Form::Test)));
        }
        if op == Some(Op::Move(motion, Form::Fetch)) {
            self.move_cursor(env, pid, motion, Form::Fetch)
        } else if op == Some(Op::Move(motion, Form::Test)) {
            self.move_cursor(env, pid, motion, Form::Test)
        } else {
            Err(StorageError::UnknownInstruction)
        }
    }

    /// CURSOR: asks the engine for a cursor in the transaction of `pid`.
    pub fn handle_cursor(&mut self, env: &mut Env, instruction: &[u8], pid: u64) -> (r: Result<Action, StorageError>)
        requires
            old(self).wf(),
        ensures
            final(self).wf(),
            old(self).cursor_effect(*final(self), *old(env), *final(env), instruction@, pid, r),
    {
        if decode_op(instruction) != Some(Op::Cursor) {
            proof {
                assert(op_of(op_code(Op::Cursor)) == Some(Op::Cursor));
            }
            return Err(StorageError::UnknownInstruction);
        }
        if self.is_write_barred(pid) || self.is_read_barred(pid) {
            return Err(StorageError::Reschedule);
        }
        match self.txn_kind(pid) {
            Some(kind) => Ok(Action::OpenCursor { kind }),
            None => Err(StorageError::NoTransaction),
        }
    }

    /// Called once the engine opened a cursor for `pid` (`Ok`) or failed
    /// with an error code. Registers the cursor under a fresh id, pushes its
    /// token and returns the id.
    pub fn finish_cursor(&mut self, env: &mut Env, pid: u64, opened: Result<(), i32>) -> (r: Result<u64, StorageError>)
        requires
            old(self).wf(),
        ensures
            final(self).wf(),
            final(env).program == old(env).program,
            r.is_err() ==> *final(self) == *old(self) && *final(env) == *old(env),
            opened matches Err(c) ==> r == Err::<u64, StorageError>(StorageError::Database(c)),
            opened is Ok ==> if old(self).write_barred(pid) || old(self).read_barred(pid) {
                r == Err::<u64, StorageError>(StorageError::Reschedule)
            } else if old(self).txn_of(pid).is_none() {
                r == Err::<u64, StorageError>(StorageError::NoTransaction)
            } else if old(self).next_cursor == u64::MAX {
                r == Err::<u64, StorageError>(StorageError::Database(CURSOR_FULL))
            } else {
                &&& r == Ok::<u64, StorageError>(old(self).next_cursor)
                &&& final(self).next_cursor == old(self).next_cursor + 1
                &&& final(self).cursors@ == old(self).cursors@.push(CursorEntry { pid, id: old(self).next_cursor, kind: old(self).txn_of(pid).unwrap() })
                &&& final(self).write_owner == old(self).write_owner
                &&& final(self).readers == old(self).readers
                &&& pushed(old(env).stack@, final(env).stack@, token_bytes(pid, old(self).next_cursor))
            },
    {
        if let Err(c) = opened {
            return Err(StorageError::Database(c));
        }
        if self.is_write_barred(pid) || self.is_read_barred(pid) {
            return Err(StorageError::Reschedule);
        }
        let kind = match self.txn_kind(pid) {
            Some(k) => k,
            None => return Err(StorageError::NoTransaction),
        };
        if self.next_cursor == u64::MAX {
            return Err(StorageError::Database(CURSOR_FULL));
        }
        let id = self.next_cursor;
        self.cursors.push(CursorEntry { pid, id, kind });
        self.next_cursor = id + 1;
        proof {
            assert forall|i: int| 0 <= i < self.cursors@.len() implies self.entry_ok(#[trigger] self.cursors@[i]) by {
                if i < old(self).cursors@.len() {
                    assert(old(self).entry_ok(old(self).cursors@[i]));
                }
            }
            let ne = CursorEntry { pid, id, kind };
            assert(self.cursors@ == old(self).cursors@.push(ne));
            assert forall|x: CursorEntry| #[trigger] self.cursors@.contains(x) implies x == ne || (old(self).cursors@.contains(x) && x.id < id) by {
                let i = choose|i: int| 0 <= i < self.cursors@.len() && self.cursors@[i] == x;
                if i < old(self).cursors@.len() {
                    assert(old(self).cursors@[i] == x);
                    assert(old(self).entry_ok(old(self).cursors@[i]));
                }
            }
            assert forall|a: CursorEntry, b: CursorEntry|
                #[trigger] self.cursors@.contains(a) && #[trigger] self.cursors@.contains(b) && a.id == b.id implies a == b by {
                if a != ne && b != ne {
                    assert(old(self).cursors@.contains(a) && old(self).cursors@.contains(b));
                }
            }
        }
        env.stack.push(cursor_token(pid, id));
        assert(env.stack@.drop_last() =~= old(env).stack@);
        Ok(id)
    }

    /// CURSOR/FIRST, in both forms.
    pub fn handle_cursor_first(&mut self, env: &mut Env, instruction: &[u8], pid: u64) -> (r: Result<Action, StorageError>)
        ensures
            *final(self) == *old(self),
            final(env).program == old(env).program,
            instruction@ == op_code(Op::Move(Motion::First, Form::Fetch)) ==> old(self).moved(old(env).stack@, final(env).stack@, pid, Motion::First, Form::Fetch, r),
            instruction@ == op_code(Op::Move(Motion::First, Form::Test)) ==> old(self).moved(old(env).stack@, final(env).stack@, pid, Motion::First, Form::Test, r),
            instruction@ != op_code(Op::Move(Motion::First, Form::Fetch)) && instruction@ != op_code(Op::Move(Motion::First, Form::Test)) ==> r == Err::<Action, StorageError>(StorageError::UnknownInstruction) && *final(env) == *old(env),
    {
        self.move_op(env, instruction, pid, Motion::First)
    }

    /// CURSOR/NEXT, in both forms.
    pub fn handle_cursor_next(&mut self, env: &mut Env, instruction: &[u8], pid: u64) -> (r: Result<Action, StorageError>)
        ensures
            *final(self) == *old(self),
            final(env).program == old(env).program,
            instruction@ == op_code(Op::Move(Motion::Next, Form::Fetch)) ==> old(self).moved(old(env).stack@, final(env).stack@, pid, Motion::Next, Form::Fetch, r),
            instruction@ == op_code(Op::Move(Motion::Next, Form::Test)) ==> old(self).moved(old(env).stack@, final(env).stack@, pid, Motion::Next, Form::Test, r),
            instruction@ != op_code(Op::Move(Motion::Next, Form::Fetch)) && instruction@ != op_code(Op::Move(Motion::Next, Form::Test)) ==> r == Err::<Action, StorageError>(StorageError::UnknownInstruction) && *final(env) == *old(env),
    {
        self.move_op(env, instruction, pid, Motion::Next)
    }

    /// CURSOR/PREV, in both forms.
    pub fn handle_cursor_prev(&mut self, env: &mut Env, instruction: &[u8], pid: u64) -> (r: Result<Action, StorageError>)
        ensures
            *final(self) == *old(self),
            final(env).program == old(env).program,
            instruction@ == op_code(Op::Move(Motion::Prev, Form::Fetch)) ==> old(self).moved(old(env).stack@, final(env).stack@, pid, Motion::Prev, Form::Fetch, r),
            instruction@ == op_code(Op::Move(Motion::Prev, Form::Test)) ==> old(self).moved(old(env).stack@, final(env).stack@, pid, Motion::Prev, Form::Test, r),
            instruction@ != op_code(Op::Move(Motion::Prev, Form::Fetch)) && instruction@ != op_code(Op::Move(Motion::Prev, Form::Test)) ==> r == Err::<Action, StorageError>(StorageError::UnknownInstruction) && *final(env) == *old(env),
    {
        self.move_op(env, instruction, pid, Motion::Prev)
    }

    /// CURSOR/LAST, in both forms.
    pub fn handle_cursor_last(&mut self, env: &mut Env, instruction: &[u8], pid: u64) -> (r: Result<Action, StorageError>)
        ensures
            *final(self) == *old(self),
            final(env).program == old(env).program,
            instruction@ == op_code(Op::Move(Motion::Last, Form::Fetch)) ==> old(self).moved(old(env).stack@, final(env).stack@, pid, Motion::Last, Form::Fetch, r),
            instruction@ == op_code(Op::Move(Motion::Last, Form::Test)) ==> old(self).moved(old(env).stack@, final(env).stack@, pid, Motion::Last, Form::Test, r),
            instruction@ != op_code(Op::Move(Motion::Last, Form::Fetch)) && instruction@ != op_code(Op::Move(Motion::Last, Form::Test)) ==> r == Err::<Action, StorageError>(StorageError::UnknownInstruction) && *final(env) == *old(env),
    {
        self.move_op(env, instruction, pid, Motion::Last)
    }

    /// CURSOR/SEEK, in both forms.
    pub fn handle_cursor_seek(&mut self, env: &mut Env, instruction: &[u8], pid: u64) -> (r: Result<Action, StorageError>)
        ensures
            *final(self) == *old(self),
            final(env).program == old(env).program,
            instruction@ == op_code(Op::Move(Motion::Seek, Form::Fetch)) ==> old(self).moved(old(env).stack@, final(env).stack@, pid, Motion::Seek, Form::Fetch, r),
            instruction@ == op_code(Op::Move(Motion::Seek, Form::Test)) ==> old(self).moved(old(env).stack@, final(env).stack@, pid, Motion::Seek, Form::Test, r),
            instruction@ != op_code(Op::Move(Motion::Seek, Form::Fetch)) && instruction@ != op_code(Op::Move(Motion::Seek, Form::Test)) ==> r == Err::<Action, StorageError>(StorageError::UnknownInstruction) && *final(env) == *old(env),
    {
        self.move_op(env, instruction, pid, Motion::Seek)
    }

    /// CURSOR/CUR, in both forms.
    pub fn handle_cursor_cur(&mut self, env: &mut Env, instruction: &[u8], pid: u64) -> (r: Result<Action, StorageError>)
        ensures
            *final(self) == *old(self),
            final(env).program == old(env).program,
            instruction@ == op_code(Op::Move(Motion::Current, Form::Fetch)) ==> old(self).moved(old(env).stack@, final(env).stack@, pid, Motion::Current, Form::Fetch, r),
            instruction@ == op_code(Op::Move(Motion::Current, Form::Test)) ==> old(self).moved(old(env).stack@, final(env).stack@, pid, Motion::Current, Form::Test, r),
            instruction@ != op_code(Op::Move(Motion::Current, Form::Fetch)) && instruction@ != op_code(Op::Move(Motion::Current, Form::Test)) ==> r == Err::<Action, StorageError>(StorageError::UnknownInstruction) && *final(env) == *old(env),
    {
        self.move_op(env, instruction, pid, Motion::Current)
    }

    /// The result of a positioning instruction once the engine moved the
    /// cursor: the pair it stands on, or `None` when it stands on nothing.
    /// The fetching form pushes the encoded pair or the empty buffer, the
    /// testing form `true` or `false`.
    pub fn finish_move(env: &mut Env, form: Form, found: Option<(Vec<u8>, Vec<u8>)>)
        requires
            found matches Some((k, v)) ==> k@.len() <= MAX_ENCODED_SIZE && v@.len() <= MAX_ENCODED_SIZE,
        ensures
            final(env).program == old(env).program,
            pushed(old(env).stack@, final(env).stack@, move_result(form, found)),
    {
        let v: Vec<u8> = match (form, found) {
            (Form::Fetch, Some((k, v))) => encode_pair(k.as_slice(), v.as_slice()),
            (Form::Fetch, None) => Vec::new(),
            (Form::Test, Some(_)) => vec![1u8],
            (Form::Test, None) => vec![0u8],
        };
        assert(v@ =~= move_result(form, found));
        env.stack.push(v);
        assert(env.stack@.drop_last() =~= old(env).stack@);
    }
}

/// What a positioning instruction pushes for what the cursor stands on.
pub open spec fn move_result(form: Form, found: Option<(Vec<u8>, Vec<u8>)>) -> Seq<u8> {
    match (form, found) {
        (Form::Fetch, Some((k, v))) => pair_bytes(k@, v@),
        (Form::Fetch, None) => Seq::empty(),
        (Form::Test, Some(_)) => true_bytes(),
        (Form::Test, None) => false_bytes(),
    }
}

/// Both forms of a positioning instruction move the same cursor in the same
/// transaction the same way and take the same operands; they differ only in
/// what they push once the engine answered.
pub proof fn lemma_forms_move_alike(h: Handler, before: Seq<Vec<u8>>, pid: u64, motion: Motion,
    after1: Seq<Vec<u8>>, r1: Result<Action, StorageError>, after2: Seq<Vec<u8>>, r2: Result<Action, StorageError>)
    requires
        h.moved(before, after1, pid, motion, Form::Fetch, r1),
        h.moved(before, after2, pid, motion, Form::Test, r2),
    ensures
        after1 == after2,
        r1.is_ok() == r2.is_ok(),
        r1.is_err() ==> r1 == r2,
        r1 matches Ok(Action::Move { kind: k1, id: i1, motion: m1, form: f1, seek: s1 }) ==> (
            r2 matches Ok(Action::Move { kind: k2, id: i2, motion: m2, form: f2, seek: s2 })
            && k1 == k2 && i1 == i2 && m1 == m2 && f1 == Form::Fetch && f2 == Form::Test),
{
}

/// Either answer of the engine gives the same outcome in both forms: the
/// fetching form pushes a pair exactly when the testing form pushes `true`.
pub proof fn lemma_forms_agree_on_found(found: Option<(Vec<u8>, Vec<u8>)>)
    ensures
        (move_result(Form::Fetch, found).len() > 0) == (move_result(Form::Test, found) == true_bytes()),
{
    if let Some((k, v)) = found {
        assert(pair_bytes(k@, v@).len() > 0);
    } else {
        assert(false_bytes() != true_bytes()) by {
            assert(false_bytes()[0] != true_bytes()[0]);
        }
    }
}

/// Once the transaction a cursor was opened in has ended, its token names
/// no cursor, for its owner and for every other process alike.
pub proof fn lemma_purged_cursor_gone(h: Handler, n: Handler, kind: TxKind, owner: Option<u64>, e: CursorEntry, pid: u64)
    requires
        h.wf(),
        h.cursors@.contains(e),
        crate::state::doomed(e, kind, owner),
        n.cursors@ == crate::state::purged(h.cursors@, kind, owner),
    ensures
        !n.has_cursor(pid, e.id),
{
    crate::state::lemma_purged_members(h.cursors@, kind, owner);
    if n.has_cursor(pid, e.id) {
        let i = choose|i: int| 0 <= i < n.cursors@.len() && n.cursors@[i].pid == pid && n.cursors@[i].id == e.id;
        let f = n.cursors@[i];
        assert(n.cursors@.contains(f));
        assert(h.cursors@.contains(f));
    }
}

/// A process cannot position a cursor that another process opened while
/// that cursor is live: handed the cursor's token, it is told to retry, and
/// its stack stays as it was.
pub proof fn lemma_foreign_cursor_refused(h: Handler, e: CursorEntry, pid: u64, stack: Seq<Vec<u8>>, motion: Motion)
    requires
        h.wf(),
        h.cursors@.contains(e),
        e.pid != pid,
        stack.len() >= operands(motion),
        stack[stack.len() - operands(motion)]@ == token_bytes(e.pid, e.id),
    ensures
        h.move_target(stack, pid, motion) == Err::<(TxKind, u64), StorageError>(StorageError::Reschedule),
{
    lemma_token_parts(e.pid, e.id);
    let j = choose|j: int| 0 <= j < h.cursors@.len() && h.cursors@[j] == e;
    assert(h.cursors@[j].pid == e.pid && h.cursors@[j].id == e.id);
}

/// Once the transaction a cursor was opened in has ended, its token is
/// invalid for every process that may act, its owner included.
pub proof fn lemma_ended_cursor_invalid(h: Handler, n: Handler, kind: TxKind, owner: Option<u64>, e: CursorEntry,
    pid: u64, stack: Seq<Vec<u8>>, motion: Motion)
    requires
        h.wf(),
        h.cursors@.contains(e),
        crate::state::doomed(e, kind, owner),
        n.cursors@ == crate::state::purged(h.cursors@, kind, owner),
        !n.write_barred(pid),
        !n.read_barred(pid),
        stack.len() >= operands(motion),
        stack[stack.len() - operands(motion)]@ == token_bytes(e.pid, e.id),
    ensures
        n.move_target(stack, pid, motion) == Err::<(TxKind, u64), StorageError>(StorageError::InvalidValue),
{
    lemma_token_parts(e.pid, e.id);
    lemma_purged_cursor_gone(h, n, kind, owner, e, e.pid);
    lemma_purged_cursor_gone(h, n, kind, owner, e, pid);
}

/// At most one process holds the write slot at any time.
pub proof fn lemma_single_writer(h: Handler, a: u64, b: u64)
    requires
        h.write_owner == Some(a),
        h.write_owner == Some(b),
    ensures
        a == b,
{
}

} // verus!

//! The state shared by all processes: the write slot, the set of readers of
//! the current epoch, and the registry of open cursors.
use vstd::prelude::*;

verus! {

/// Signals an instruction can end with.
#[derive(PartialEq, Eq, Structural, Clone, Copy, Debug)]
pub enum StorageError {
    /// The instruction cannot go on now; nothing was changed and it is to be
    /// tried again later.
    Reschedule,
    EmptyStack,
    InvalidValue,
    NoTransaction,
    DuplicateKey,
    UnknownKey,
    /// The storage engine failed, with its error code.
    Database(i32),
    UnknownInstruction,
}

/// The kind of transaction a cursor was opened in.
#[derive(PartialEq, Eq, Structural, Clone, Copy, Debug)]
pub enum TxKind {
    Read,
    Write,
}

/// One registered cursor: its owner, its id and the kind of its transaction.
#[derive(PartialEq, Eq, Structural, Clone, Copy, Debug)]
pub struct CursorEntry {
    pub pid: u64,
    pub id: u64,
    pub kind: TxKind,
}

/// The stack and the pending program of one process.
#[derive(Debug)]
pub struct Env {
    pub stack: Vec<Vec<u8>>,
    /// Instructions still to run; the last one runs first.
    pub program: Vec<Vec<u8>>,
}

/// Transaction and cursor bookkeeping for all processes.
#[derive(Debug)]
pub struct Handler {
    /// The process holding the one write transaction, if any.
    pub write_owner: Option<u64>,
    /// The processes holding a read transaction (the current epoch).
    pub readers: Vec<u64>,
    pub cursors: Vec<CursorEntry>,
    /// The id the next cursor gets; ids are never handed out twice.
    pub next_cursor: u64,
}

/// Whether purging `(kind, pid)` removes `e`: every entry of that kind when
/// `pid` is `None`, else only those of that process.
pub open spec fn doomed(e: CursorEntry, kind: TxKind, pid: Option<u64>) -> bool {
    e.kind == kind && match pid {
        None => true,
        Some(p) => e.pid == p,
    }
}

/// `s` without the entries that purging `(kind, pid)` removes, order kept.
pub open spec fn purged(s: Seq<CursorEntry>, kind: TxKind, pid: Option<u64>) -> Seq<CursorEntry>
    decreases s.len(),
{
    if s.len() == 0 {
        Seq::empty()
    } else {
        let r = purged(s.drop_last(), kind, pid);
        if doomed(s.last(), kind, pid) {
            r
        } else {
            r.push(s.last())
        }
    }
}

/// `s` without `x`, order kept.
pub open spec fn without(s: Seq<u64>, x: u64) -> Seq<u64>
    decreases s.len(),
{
    if s.len() == 0 {
        Seq::empty()
    } else {
        let r = without(s.drop_last(), x);
        if s.last() == x {
            r
        } else {
            r.push(s.last())
        }
    }
}

pub proof fn lemma_purged_members(s: Seq<CursorEntry>, kind: TxKind, pid: Option<u64>)
    ensures
        forall|e: CursorEntry| #[trigger] purged(s, kind, pid).contains(e) <==> (s.contains(e) && !doomed(e, kind, pid)),
    decreases s.len(),
{
    if s.len() > 0 {
        lemma_purged_members(s.drop_last(), kind, pid);
        let d = s.drop_last();
        assert forall|e: CursorEntry| s.contains(e) <==> (d.contains(e) || e == s.last()) by {
            if s.contains(e) {
                let i = choose|i: int| 0 <= i < s.len() && s[i] == e;
                if i < s.len() - 1 {
                    assert(d[i] == e);
                }
            }
            if d.contains(e) {
                let i = choose|i: int| 0 <= i < d.len() && d[i] == e;
                assert(s[i] == e);
            }
            if e == s.last() {
                assert(s[s.len() - 1] == e);
            }
        }
        let r = purged(d, kind, pid);
        assert(forall|e: CursorEntry| #[trigger] r.contains(e) <==> (d.contains(e) && !doomed(e, kind, pid)));
        if doomed(s.last(), kind, pid) {
            assert(purged(s, kind, pid) == r);
            assert forall|e: CursorEntry| purged(s, kind, pid).contains(e) <==> (s.contains(e) && !doomed(e, kind, pid)) by {
                assert(d.contains(e) && !doomed(e, kind, pid) <==> r.contains(e));
            }
        } else {
            assert(purged(s, kind, pid) == r.push(s.last()));
            assert forall|e: CursorEntry| r.push(s.last()).contains(e) <==> (r.contains(e) || e == s.last()) by {
                if r.push(s.last()).contains(e) {
                    let i = choose|i: int| 0 <= i < r.len() + 1 && r.push(s.last())[i] == e;
                    if i < r.len() {
                        assert(r[i] == e);
                    }
                }
                if r.contains(e) {
                    let i = choose|i: int| 0 <= i < r.len() && r[i] == e;
                    assert(r.push(s.last())[i] == e);
                }
                if e == s.last() {
                    assert(r.push(s.last())[r.len() as int] == e);
                }
            }
            assert forall|e: CursorEntry| purged(s, kind, pid).contains(e) <==> (s.contains(e) && !doomed(e, kind, pid)) by {
                assert(d.contains(e) && !doomed(e, kind, pid) <==> r.contains(e));
            }
        }
    } else {
        assert(purged(s, kind, pid) =~= Seq::<CursorEntry>::empty());
        assert forall|e: CursorEntry| !s.contains(e) && !purged(s, kind, pid).contains(e) by {}
    }
}

pub proof fn lemma_without_members(s: Seq<u64>, x: u64)
    ensures
        forall|y: u64| #[trigger] without(s, x).contains(y) <==> (s.contains(y) && y != x),
        s.no_duplicates() ==> without(s, x).no_duplicates(),
    decreases s.len(),
{
    if s.len() > 0 {
        lemma_without_members(s.drop_last(), x);
        let d = s.drop_last();
        assert forall|y: u64| s.contains(y) <==> (d.contains(y) || y == s.last()) by {
            if s.contains(y) {
                let i = choose|i: int| 0 <= i < s.len() && s[i] == y;
                if i < s.len() - 1 {
                    assert(d[i] == y);
                }
            }
            if d.contains(y) {
                let i = choose|i: int| 0 <= i < d.len() && d[i] == y;
                assert(s[i] == y);
            }
            if y == s.last() {
                assert(s[s.len() - 1] == y);
            }
        }
        let r = without(d, x);
        assert(forall|y: u64| #[trigger] r.contains(y) <==> (d.contains(y) && y != x));
        if s.no_duplicates() {
            assert(d.no_duplicates());
            assert(!d.contains(s.last())) by {
                if d.contains(s.last()) {
                    let i = choose|i: int| 0 <= i < d.len() && d[i] == s.last();
                    assert(s[i] == s[s.len() - 1]);
                }
            }
        }
        if s.last() == x {
            assert(without(s, x) == r);
            assert forall|y: u64| without(s, x).contains(y) <==> (s.contains(y) && y != x) by {
                assert(d.contains(y) && y != x <==> r.contains(y));
            }
        } else {
            assert(without(s, x) == r.push(s.last()));
            assert forall|y: u64| r.push(s.last()).contains(y) <==> (r.contains(y) || y == s.last()) by {
                if r.push(s.last()).contains(y) {
                    let i = choose|i: int| 0 <= i < r.len() + 1 && r.push(s.last())[i] == y;
                    if i < r.len() {
                        assert(r[i] == y);
                    }
                }
                if r.contains(y) {
                    let i = choose|i: int| 0 <= i < r.len() && r[i] == y;
                    assert(r.push(s.last())[i] == y);
                }
                if y == s.last() {
                    assert(r.push(s.last())[r.len() as int] == y);
                }
            }
            if s.no_duplicates() {
                let q = r.push(s.last());
                assert forall|i: int, j: int| 0 <= i < q.len() && 0 <= j < q.len() && i != j implies q[i] != q[j] by {
                    if i < r.len() && j < r.len() {
                        assert(q[i] == r[i] && q[j] == r[j]);
                    } else if i < r.len() {
                        assert(q[i] == r[i]);
                        assert(r.contains(r[i]));
                    } else {
                        assert(q[j] == r[j]);
                        assert(r.contains(r[j]));
                    }
                }
            }
            assert forall|y: u64| without(s, x).contains(y) <==> (s.contains(y) && y != x) by {
                assert(d.contains(y) && y != x <==> r.contains(y));
            }
        }
    } else {
        assert(without(s, x) =~= Seq::<u64>::empty());
        assert forall|y: u64| !s.contains(y) && !without(s, x).contains(y) by {}
    }
}

/// Removing an element that is absent leaves the sequence as it is.
pub proof fn lemma_without_absent(s: Seq<u64>, x: u64)
    requires
        !s.contains(x),
    ensures
        without(s, x) == s,
    decreases s.len(),
{
    if s.len() > 0 {
        let d = s.drop_last();
        assert(!d.contains(x)) by {
            if d.contains(x) {
                let i = choose|i: int| 0 <= i < d.len() && d[i] == x;
                assert(s[i] == x);
            }
        }
        lemma_without_absent(d, x);
        assert(s.last() != x) by {
            assert(s[s.len() - 1] == s.last());
        }
        assert(d.push(s.last()) =~= s);
    } else {
        assert(without(s, x) =~= s);
    }
}

/// Purging when nothing is doomed leaves the sequence as it is.
pub proof fn lemma_purged_nothing(s: Seq<CursorEntry>, kind: TxKind, pid: Option<u64>)
    requires
        forall|i: int| 0 <= i < s.len() ==> !doomed(#[trigger] s[i], kind, pid),
    ensures
        purged(s, kind, pid) == s,
    decreases s.len(),
{
    if s.len() > 0 {
        let d = s.drop_last();
        assert forall|i: int| 0 <= i < d.len() implies !doomed(#[trigger] d[i], kind, pid) by {
            assert(d[i] == s[i]);
        }
        lemma_purged_nothing(d, kind, pid);
        assert(!doomed(s[s.len() - 1], kind, pid));
        assert(d.push(s.last()) =~= s);
    } else {
        assert(purged(s, kind, pid) =~= s);
    }
}

impl Handler {
    /// Every reader is listed once; every cursor id lies below the next one
    /// to be handed out and names one cursor only; a write cursor belongs to
    /// the holder of the write slot and a read cursor to a current reader.
    pub open spec fn wf(&self) -> bool {
        &&& self.readers@.no_duplicates()
        &&& forall|i: int| 0 <= i < self.cursors@.len() ==> self.entry_ok(#[trigger] self.cursors@[i])
        &&& forall|a: CursorEntry, b: CursorEntry|
            #[trigger] self.cursors@.contains(a) && #[trigger] self.cursors@.contains(b) && a.id == b.id ==> a == b
    }

    pub open spec fn entry_ok(&self, e: CursorEntry) -> bool {
        &&& e.id < self.next_cursor
        &&& e.kind == TxKind::Write ==> self.write_owner == Some(e.pid)
        &&& e.kind == TxKind::Read ==> self.readers@.contains(e.pid)
    }

    /// Another process holds the write slot.
    pub open spec fn write_barred(&self, pid: u64) -> bool {
        match self.write_owner {
            Some(o) => o != pid,
            None => false,
        }
    }

    /// A read epoch is running and `pid` is not part of it.
    pub open spec fn read_barred(&self, pid: u64) -> bool {
        self.readers@.len() > 0 && !self.readers@.contains(pid)
    }

    /// The transaction `pid` works in: its write transaction, else its read
    /// transaction, else none.
    pub open spec fn txn_of(&self, pid: u64) -> Option<TxKind> {
        if self.write_owner == Some(pid) {
            Some(TxKind::Write)
        } else if self.readers@.contains(pid) {
            Some(TxKind::Read)
        } else {
            None
        }
    }

    /// `pid` has a registered cursor with id `id`.
    pub open spec fn has_cursor(&self, pid: u64, id: u64) -> bool {
        exists|i: int| 0 <= i < self.cursors@.len() && self.cursors@[i].pid == pid && self.cursors@[i].id == id
    }

    /// A handler with no transaction and no cursor.
    pub fn new() -> (r: Handler)
        ensures
            r.wf(),
            r.write_owner.is_none(),
            r.readers@.len() == 0,
            r.cursors@.len() == 0,
            r.next_cursor == 0,
    {
        Handler { write_owner: None, readers: Vec::new(), cursors: Vec::new(), next_cursor: 0 }
    }

    pub(crate) fn is_write_barred(&self, pid: u64) -> (r: bool)
        ensures
            r == self.write_barred(pid),
    {
        match self.write_owner {
            Some(o) => o != pid,
            None => false,
        }
    }

    pub(crate) fn is_reader(&self, pid: u64) -> (r: bool)
        ensures
            r == self.readers@.contains(pid),
    {
        let mut i: usize = 0;
        while i < self.readers.len()
            invariant
                i <= self.readers@.len(),
                forall|j: int| 0 <= j < i ==> self.readers@[j] != pid,
            decreases self.readers@.len() - i,
        {
            if self.readers[i] == pid {
                return true;
            }
            i = i + 1;
        }
        false
    }

    pub(crate) fn is_read_barred(&self, pid: u64) -> (r: bool)
        ensures
            r == self.read_barred(pid),
    {
        self.readers.len() > 0 && !self.is_reader(pid)
    }

    pub(crate) fn txn_kind(&self, pid: u64) -> (r: Option<TxKind>)
        ensures
            r == self.txn_of(pid),
    {
        if self.write_owner == Some(pid) {
            Some(TxKind::Write)
        } else if self.is_reader(pid) {
            Some(TxKind::Read)
        } else {
            None
        }
    }

    /// Drops the cursors that purging `(kind, pid)` removes.
    pub(crate) fn purge(&mut self, kind: TxKind, pid: Option<u64>)
        ensures
            final(self).cursors@ == purged(old(self).cursors@, kind, pid),
            final(self).write_owner == old(self).write_owner,
            final(self).readers == old(self).readers,
            final(self).next_cursor == old(self).next_cursor,
    {
        let mut kept: Vec<CursorEntry> = Vec::new();
        let mut i: usize = 0;
        while i < self.cursors.len()
            invariant
                i <= self.cursors@.len(),
                kept@ == purged(self.cursors@.subrange(0, i as int), kind, pid),
            decreases self.cursors@.len() - i,
        {
            let e = self.cursors[i];
            assert(self.cursors@.subrange(0, i + 1).drop_last() =~= self.cursors@.subrange(0, i as int));
            let gone = e.kind == kind && match pid {
                None => true,
                Some(p) => e.pid == p,
            };
            if !gone {
                kept.push(e);
            }
            i = i + 1;
        }
        assert(self.cursors@.subrange(0, i as int) =~= self.cursors@);
        self.cursors = kept;
    }

    /// Takes `pid` out of the current read epoch.
    pub(crate) fn drop_reader(&mut self, pid: u64)
        ensures
            final(self).readers@ == without(old(self).readers@, pid),
            final(self).write_owner == old(self).write_owner,
            final(self).cursors == old(self).cursors,
            final(self).next_cursor == old(self).next_cursor,
    {
        let mut kept: Vec<u64> = Vec::new();
        let mut i: usize = 0;
        while i < self.readers.len()
            invariant
                i <= self.readers@.len(),
                kept@ == without(self.readers@.subrange(0, i as int), pid),
            decreases self.readers@.len() - i,
        {
            let r = self.readers[i];
            assert(self.readers@.subrange(0, i + 1).drop_last() =~= self.readers@.subrange(0, i as int));
            if r != pid {
                kept.push(r);
            }
            i = i + 1;
        }
        assert(self.readers@.subrange(0, i as int) =~= self.readers@);
        self.readers = kept;
    }
}

} // verus!

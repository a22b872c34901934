//! The undo/redo stack: each recorded command with the snapshots taken
//! before and after it. Undo steps back to a pre-execution snapshot, redo
//! forward to a post-execution one; recording after an undo drops what could
//! have been redone.

use vstd::prelude::*;
use crate::snapshot::{Snapshot, SnapshotView};
use crate::text::str_eq;

verus! {

broadcast use vstd::string::group_string_axioms;

/// A single undo record.
#[derive(Debug)]
pub struct UndoRecord {
    /// The snapshot to restore to.
    pub pre_snapshot: Snapshot,
    /// The snapshot taken after the command.
    pub post_snapshot: Option<Snapshot>,
    /// The command.
    pub command: String,
    /// Whether the record has been undone.
    pub undone: bool,
}

/// The value of an undo record.
pub struct RecordView {
    pub pre_snapshot: SnapshotView,
    pub post_snapshot: Option<SnapshotView>,
    pub command: Seq<char>,
    pub undone: bool,
}

impl View for UndoRecord {
    type V = RecordView;

    open spec fn view(&self) -> RecordView {
        RecordView {
            pre_snapshot: self.pre_snapshot@,
            post_snapshot: match self.post_snapshot {
                Some(s) => Some(s@),
                None => None,
            },
            command: self.command@,
            undone: self.undone,
        }
    }
}

/// The views of a sequence of records.
pub open spec fn record_views(s: Seq<UndoRecord>) -> Seq<RecordView> {
    s.map_values(|r: UndoRecord| r@)
}

/// The state of an undo stack: the records, oldest first, and how many of
/// them are in effect (the rest were undone).
pub struct UndoView {
    pub records: Seq<RecordView>,
    pub position: nat,
}

/// The undo/redo stack.
pub struct UndoStack {
    records: Vec<UndoRecord>,
    position: usize,
}

impl View for UndoStack {
    type V = UndoView;

    closed spec fn view(&self) -> UndoView {
        UndoView { records: record_views(self.records@), position: self.position as nat }
    }
}

/// The records below the position are in effect, those at or above it undone.
pub open spec fn stack_wf(v: UndoView) -> bool {
    &&& v.position <= v.records.len()
    &&& forall|i: int| 0 <= i < v.records.len() ==> (#[trigger] v.records[i]).undone == (i >= v.position)
}

/// The state after undoing the latest record in effect.
pub open spec fn undo_spec(v: UndoView) -> UndoView
    recommends
        v.position > 0,
{
    let p = (v.position - 1) as nat;
    UndoView { records: v.records.update(p as int, RecordView { undone: true, ..v.records[p as int] }), position: p }
}

/// The state after redoing the earliest undone record.
pub open spec fn redo_spec(v: UndoView) -> UndoView
    recommends
        v.position < v.records.len(),
{
    let p = v.position;
    UndoView { records: v.records.update(p as int, RecordView { undone: false, ..v.records[p as int] }), position: p + 1 }
}

impl UndoStack {
    #[verifier::type_invariant]
    spec fn well_formed(&self) -> bool {
        stack_wf(self@)
    }

    /// An empty stack.
    pub fn new() -> (r: Self)
        ensures
            r@.records.len() == 0,
            r@.position == 0,
    {
        UndoStack { records: Vec::new(), position: 0 }
    }

    /// Records a command with its snapshots; any undone records are dropped
    /// first, so nothing is left to redo.
    pub fn record(&mut self, pre: Snapshot, post: Option<Snapshot>, command: String)
        ensures
            final(self)@.records == old(self)@.records.take(old(self)@.position as int).push(RecordView {
                pre_snapshot: pre@,
                post_snapshot: match post {
                    Some(s) => Some(s@),
                    None => None,
                },
                command: command@,
                undone: false,
            }),
            final(self)@.position == old(self)@.position + 1,
            stack_wf(final(self)@),
    {
        proof {
            use_type_invariant(&*self);
        }
        let ghost old_view = self@;
        let mut taken = UndoStack::new();
        std::mem::swap(&mut taken, self);
        let UndoStack { mut records, position: pos } = taken;
        proof {
            assert(record_views(records@) == old_view.records);
        }
        records.truncate(pos);
        let rec = UndoRecord { pre_snapshot: pre, post_snapshot: post, command, undone: false };
        let ghost rv = rec@;
        records.push(rec);
        proof {
            assert(record_views(records@) =~= old_view.records.take(pos as int).push(rv));
        }
        let np = records.len();
        *self = UndoStack { records, position: np };
        proof {
            use_type_invariant(&*self);
        }
    }

    /// Undoes the latest record in effect and returns the snapshot to
    /// restore; `None` when nothing is in effect.
    pub fn undo(&mut self) -> (r: Option<&Snapshot>)
        ensures
            old(self)@.position == 0 ==> r is None && final(self)@ == old(self)@,
            old(self)@.position > 0 ==> {
                &&& final(self)@ == undo_spec(old(self)@)
                &&& r matches Some(s) && s@ == old(self)@.records[old(self)@.position - 1].pre_snapshot
            },
            stack_wf(final(self)@),
    {
        proof {
            use_type_invariant(&*self);
        }
        if self.position == 0 {
            return None;
        }
        let ghost old_view = self@;
        let p = self.position - 1;
        let mut taken = UndoStack::new();
        std::mem::swap(&mut taken, self);
        let UndoStack { mut records, position: _ } = taken;
        let mut rec = records.remove(p);
        rec.undone = true;
        records.insert(p, rec);
        proof {
            assert(record_views(records@) =~= undo_spec(old_view).records);
        }
        *self = UndoStack { records, position: p };
        Some(&self.records[p].pre_snapshot)
    }

    /// Redoes the earliest undone record and returns its post-execution
    /// snapshot; `None` when nothing was undone, or the record has none.
    pub fn redo(&mut self) -> (r: Option<&Snapshot>)
        ensures
            old(self)@.position >= old(self)@.records.len() ==> r is None && final(self)@ == old(self)@,
            old(self)@.position < old(self)@.records.len() ==> {
                &&& final(self)@ == redo_spec(old(self)@)
                &&& match old(self)@.records[old(self)@.position as int].post_snapshot {
                    Some(v) => r matches Some(s) && s@ == v,
                    None => r is None,
                }
            },
            stack_wf(final(self)@),
    {
        proof {
            use_type_invariant(&*self);
        }
        if self.position >= self.records.len() {
            return None;
        }
        let ghost old_view = self@;
        let p = self.position;
        let mut taken = UndoStack::new();
        std::mem::swap(&mut taken, self);
        let UndoStack { mut records, position: _ } = taken;
        let mut rec = records.remove(p);
        rec.undone = false;
        records.insert(p, rec);
        proof {
            assert(record_views(records@) =~= redo_spec(old_view).records);
        }
        *self = UndoStack { records, position: p + 1 };
        match &self.records[p].post_snapshot {
            Some(s) => Some(s),
            None => None,
        }
    }

    /// The number of records in effect.
    pub fn undo_count(&self) -> (r: usize)
        ensures
            r == self@.position,
            stack_wf(self@),
    {
        proof {
            use_type_invariant(self);
        }
        self.position
    }

    /// The number of undone records.
    pub fn redo_count(&self) -> (r: usize)
        ensures
            r == self@.records.len() - self@.position,
    {
        proof {
            use_type_invariant(self);
        }
        self.records.len() - self.position
    }

    /// Drops every record.
    pub fn clear(&mut self)
        ensures
            final(self)@.records.len() == 0,
            final(self)@.position == 0,
    {
        *self = UndoStack { records: Vec::new(), position: 0 };
    }

    /// All records, oldest first.
    pub fn history(&self) -> (r: &[UndoRecord])
        ensures
            record_views(r@) == self@.records,
    {
        self.records.as_slice()
    }

    /// The latest record, undone or not.
    pub fn last_record(&self) -> (r: Option<&UndoRecord>)
        ensures
            match r {
                Some(x) => self@.records.len() > 0 && x@ == self@.records.last(),
                None => self@.records.len() == 0,
            },
    {
        let n = self.records.len();
        if n == 0 {
            None
        } else {
            Some(&self.records[n - 1])
        }
    }

    /// The records of a command, oldest first.
    pub fn records_for_command(&self, command: &str) -> (r: Vec<&UndoRecord>)
        ensures
            r@.map_values(|x: &UndoRecord| x@) == self@.records.filter(|x: RecordView| x.command == command@),
    {
        let ghost keep = |x: RecordView| x.command == command@;
        let ghost all = self@.records;
        let mut r: Vec<&UndoRecord> = Vec::new();
        let mut i: usize = 0;
        while i < self.records.len()
            invariant
                i <= self.records.len(),
                all == record_views(self.records@),
                keep == (|x: RecordView| x.command == command@),
                r@.map_values(|x: &UndoRecord| x@) == all.take(i as int).filter(keep),
            decreases self.records.len() - i,
        {
            let rec = &self.records[i];
            let ghost before = r@;
            proof {
                assert(all[i as int] == rec@);
                assert(all.take(i + 1) =~= all.take(i as int).push(all[i as int]));
                reveal(Seq::filter);
                assert(all.take(i as int).push(all[i as int]).drop_last() =~= all.take(i as int));
            }
            if str_eq(rec.command.as_str(), command) {
                r.push(rec);
                proof {
                    assert(r@.map_values(|x: &UndoRecord| x@) =~= before.map_values(|x: &UndoRecord| x@).push(rec@));
                }
            }
            i += 1;
        }
        assert(all.take(self.records.len() as int) =~= all);
        r
    }
}

impl Default for UndoStack {
    /// An empty stack.
    fn default() -> (r: Self)
        ensures
            r@.records.len() == 0,
            r@.position == 0,
    {
        UndoStack::new()
    }
}

/// Undo then redo: redoing right after an undo restores the stack as it was.
pub proof fn law_undo_then_redo(v: UndoView)
    requires
        stack_wf(v),
        v.position > 0,
    ensures
        stack_wf(undo_spec(v)),
        undo_spec(v).position < undo_spec(v).records.len(),
        redo_spec(undo_spec(v)) == v,
{
    let u = undo_spec(v);
    assert(u.records.len() == v.records.len());
    let p = v.position - 1;
    assert(v.records[p].undone == false);
    assert(redo_spec(u).records =~= v.records);
}

/// Redo then undo: undoing right after a redo restores the stack as it was.
pub proof fn law_redo_then_undo(v: UndoView)
    requires
        stack_wf(v),
        v.position < v.records.len(),
    ensures
        stack_wf(redo_spec(v)),
        redo_spec(v).position > 0,
        undo_spec(redo_spec(v)) == v,
{
    let d = redo_spec(v);
    let p = v.position as int;
    assert(v.records[p].undone == true);
    assert(undo_spec(d).records =~= v.records);
}

/// Each undo moves one record from the undo count to the redo count, and
/// each redo moves one back; the records stay as many.
pub proof fn law_undo_redo_counts(v: UndoView)
    requires
        stack_wf(v),
    ensures
        v.position > 0 ==> undo_spec(v).position == v.position - 1 && undo_spec(v).records.len() == v.records.len(),
        v.position < v.records.len() ==> redo_spec(v).position == v.position + 1 && redo_spec(v).records.len() == v.records.len(),
{
}

} // verus!

//! Which arrays are believed to be failing, and when that is news.

use crate::raid::{Raid, RaidModel};
use vstd::prelude::*;

verus! {

/// Whether an array called `name` is among the tracked ones.
pub open spec fn tracks(set: Seq<RaidModel>, name: Seq<char>) -> bool {
    exists|i: int| 0 <= i < set.len() && (#[trigger] set[i]).name == name
}

/// The tracked arrays without those called `name`.
pub open spec fn without(set: Seq<RaidModel>, name: Seq<char>) -> Seq<RaidModel> {
    set.filter(|r: RaidModel| r.name != name)
}

/// No two entries carry the same name.
pub open spec fn distinct_names(records: Seq<RaidModel>) -> bool {
    forall|i: int, j: int|
        0 <= i < j < records.len() ==> (#[trigger] records[i]).name != (#[trigger] records[j]).name
}

/// What holds of the tracked arrays at all times: each is failing, and no
/// array is tracked twice.
pub open spec fn well_formed(set: Seq<RaidModel>) -> bool {
    &&& distinct_names(set)
    &&& forall|i: int| 0 <= i < set.len() ==> (#[trigger] set[i]).is_failing()
}

/// Whether observing `record` is news: it fails and was not tracked.
pub open spec fn raises(set: Seq<RaidModel>, record: RaidModel) -> bool {
    record.is_failing() && !tracks(set, record.name)
}

/// The tracked arrays after one record was observed. An array that fails
/// and was not tracked is added; one that is healthy and was tracked is
/// dropped; nothing else changes.
pub open spec fn observed(set: Seq<RaidModel>, record: RaidModel) -> Seq<RaidModel> {
    if record.is_failing() && !tracks(set, record.name) {
        set.push(record)
    } else if !record.is_failing() && tracks(set, record.name) {
        without(set, record.name)
    } else {
        set
    }
}

/// The tracked arrays after a whole snapshot was observed, record by record
/// in the snapshot's order.
pub open spec fn reconciled(set: Seq<RaidModel>, records: Seq<RaidModel>) -> Seq<RaidModel>
    decreases records.len(),
{
    if records.len() == 0 {
        set
    } else {
        observed(reconciled(set, records.drop_last()), records.last())
    }
}

/// Whether observing a snapshot is news: one of its records was, at the
/// moment it was observed.
pub open spec fn notifies(set: Seq<RaidModel>, records: Seq<RaidModel>) -> bool
    decreases records.len(),
{
    if records.len() == 0 {
        false
    } else {
        notifies(set, records.drop_last()) || raises(
            reconciled(set, records.drop_last()),
            records.last(),
        )
    }
}

/// The most recent record of a snapshot that is about the array `name`.
pub open spec fn last_seen(records: Seq<RaidModel>, name: Seq<char>) -> Option<RaidModel>
    decreases records.len(),
{
    if records.len() == 0 {
        None
    } else if records.last().name == name {
        Some(records.last())
    } else {
        last_seen(records.drop_last(), name)
    }
}

/// The arrays that are believed to be failing.
pub struct FailureTracker {
    raids: Vec<Raid>,
}

impl View for FailureTracker {
    type V = Seq<RaidModel>;

    closed spec fn view(&self) -> Seq<RaidModel> {
        self.raids.deep_view()
    }
}

impl FailureTracker {
    /// Holds of every tracker: each tracked array is failing, and no array
    /// is tracked twice.
    #[verifier::type_invariant]
    pub open spec fn inv(&self) -> bool {
        well_formed(self@)
    }

    /// A tracker that believes no array to be failing.
    pub fn new() -> (tracker: FailureTracker)
        ensures
            tracker@ == Seq::<RaidModel>::empty(),
    {
        let raids: Vec<Raid> = Vec::new();
        FailureTracker { raids }
    }

    /// The tracked arrays, in the order in which they began to fail.
    pub fn raids(&self) -> (raids: &Vec<Raid>)
        ensures
            raids.deep_view() == self@,
            well_formed(self@),
    {
        proof {
            use_type_invariant(self);
        }
        &self.raids
    }

    /// Moves the tracked arrays out, leaving none behind.
    fn take_raids(&mut self) -> (raids: Vec<Raid>)
        ensures
            raids.deep_view() == old(self)@,
            final(self)@ == Seq::<RaidModel>::empty(),
    {
        let mut raids: Vec<Raid> = Vec::new();
        core::mem::swap(&mut self.raids, &mut raids);
        raids
    }

    /// Puts `raids` in the place of the tracked arrays.
    fn put_raids(&mut self, raids: Vec<Raid>)
        requires
            well_formed(raids.deep_view()),
        ensures
            final(self)@ == raids.deep_view(),
    {
        let mut raids = raids;
        core::mem::swap(&mut self.raids, &mut raids);
    }

    fn position(&self, record: &Raid) -> (found: Option<usize>)
        ensures
            found is Some <==> tracks(self@, record@.name),
            found matches Some(i) ==> i < self@.len() && self@[i as int].name == record@.name,
    {
        let mut i: usize = 0;
        while i < self.raids.len()
            invariant
                i <= self.raids.len(),
                forall|j: int| 0 <= j < i ==> (#[trigger] self@[j]).name != record@.name,
            decreases self.raids.len() - i,
        {
            if self.raids[i] == *record {
                assert(self@[i as int].name == record@.name);
                return Some(i);
            }
            i += 1;
        }
        None
    }

    /// Whether the array that `record` is about is tracked. Only the name
    /// counts.
    pub fn contains(&self, record: &Raid) -> (present: bool)
        ensures
            present == tracks(self@, record@.name),
    {
        self.position(record).is_some()
    }

    /// Observes one record: begins to track its array if that is a new
    /// failure, ceases to track it if it has recovered. Says whether this
    /// was a new failure.
    pub fn observe(&mut self, record: &Raid) -> (raised: bool)
        ensures
            final(self)@ == observed(old(self)@, record@),
            raised == raises(old(self)@, record@),
            well_formed(final(self)@),
    {
        proof {
            use_type_invariant(&*self);
        }
        let ghost before = self@;
        let found = self.position(record);
        if record.is_failing() {
            if found.is_none() {
                let mut raids = self.take_raids();
                raids.push(record.clone());
                assert(raids.deep_view() =~= before.push(record@));
                self.put_raids(raids);
                return true;
            }
        } else if let Some(i) = found {
            let mut raids = self.take_raids();
            raids.remove(i);
            proof {
                assert(raids.deep_view() =~= before.remove(i as int));
                lemma_without_is_remove(before, i as int);
            }
            self.put_raids(raids);
        }
        false
    }

    /// Observes a snapshot, record by record. Says whether any record was a
    /// new failure.
    pub fn reconcile(&mut self, records: &Vec<Raid>) -> (notify: bool)
        ensures
            final(self)@ == reconciled(old(self)@, records.deep_view()),
            notify == notifies(old(self)@, records.deep_view()),
            well_formed(final(self)@),
    {
        proof {
            use_type_invariant(&*self);
        }
        let ghost snapshot = records.deep_view();
        let mut notify = false;
        let mut i: usize = 0;
        while i < records.len()
            invariant
                i <= records.len(),
                snapshot == records.deep_view(),
                self@ == reconciled(old(self)@, snapshot.take(i as int)),
                notify == notifies(old(self)@, snapshot.take(i as int)),
                well_formed(self@),
            decreases records.len() - i,
        {
            proof {
                assert(snapshot.take(i + 1).drop_last() =~= snapshot.take(i as int));
            }
            let raised = self.observe(&records[i]);
            notify = notify || raised;
            i += 1;
        }
        assert(snapshot.take(i as int) =~= snapshot);
        notify
    }
}

/// Filtering keeps a sequence as it is when every entry passes.
proof fn lemma_filter_keeps_all<A>(s: Seq<A>, pred: spec_fn(A) -> bool)
    requires
        forall|i: int| 0 <= i < s.len() ==> pred(#[trigger] s[i]),
    ensures
        s.filter(pred) == s,
    decreases s.len(),
{
    reveal(Seq::filter);
    if s.len() > 0 {
        lemma_filter_keeps_all(s.drop_last(), pred);
    }
}

/// Where no name occurs twice, dropping the arrays called like the entry
/// at `i` removes that entry and nothing else.
pub proof fn lemma_without_is_remove(set: Seq<RaidModel>, i: int)
    requires
        distinct_names(set),
        0 <= i < set.len(),
    ensures
        without(set, set[i].name) == set.remove(i),
    decreases set.len(),
{
    reveal(Seq::filter);
    let name = set[i].name;
    let pred = |r: RaidModel| r.name != name;
    let init = set.drop_last();
    if i == set.len() - 1 {
        lemma_filter_keeps_all(init, pred);
    } else {
        lemma_without_is_remove(init, i);
    }
}

} // verus!

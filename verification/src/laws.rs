//! What holds of reconciling snapshots, whatever the snapshots are.

use crate::raid::RaidModel;
use crate::tracker::{
    distinct_names, last_seen, lemma_without_is_remove, notifies, observed, raises, reconciled,
    tracks, well_formed, without,
};
use vstd::prelude::*;

verus! {

/// Dropping the arrays called `name` leaves exactly the arrays with other
/// names tracked.
pub proof fn lemma_tracks_without(set: Seq<RaidModel>, name: Seq<char>, other: Seq<char>)
    ensures
        tracks(without(set, name), other) <==> tracks(set, other) && other != name,
{
    let pred = |r: RaidModel| r.name != name;
    let kept = without(set, name);
    if tracks(kept, other) {
        let k = choose|k: int| 0 <= k < kept.len() && (#[trigger] kept[k]).name == other;
        set.lemma_filter_pred(pred, k);
        set.lemma_filter_contains_rev(pred, kept[k]);
    }
    if tracks(set, other) && other != name {
        let j = choose|j: int| 0 <= j < set.len() && (#[trigger] set[j]).name == other;
        set.lemma_filter_contains(pred, j);
    }
}

/// After one record was observed, its array is tracked exactly if the
/// record fails; every other array is tracked as before.
pub proof fn lemma_tracks_observed(set: Seq<RaidModel>, record: RaidModel, name: Seq<char>)
    ensures
        tracks(observed(set, record), name) == (if record.name == name {
            record.is_failing()
        } else {
            tracks(set, name)
        }),
{
    if record.is_failing() && !tracks(set, record.name) {
        let next = set.push(record);
        assert(next[set.len() as int] == record);
        if tracks(set, name) {
            let i = choose|i: int| 0 <= i < set.len() && (#[trigger] set[i]).name == name;
            assert(next[i].name == name);
        }
    } else if !record.is_failing() && tracks(set, record.name) {
        lemma_tracks_without(set, record.name, name);
    }
}

/// Observing one record keeps every tracked array failing and no array
/// tracked twice.
pub proof fn lemma_observed_well_formed(set: Seq<RaidModel>, record: RaidModel)
    requires
        well_formed(set),
    ensures
        well_formed(observed(set, record)),
{
    if !record.is_failing() && tracks(set, record.name) {
        let i = choose|i: int| 0 <= i < set.len() && (#[trigger] set[i]).name == record.name;
        lemma_without_is_remove(set, i);
    }
}

/// A snapshot of one record is reconciled by observing that record.
pub proof fn lemma_single_record(set: Seq<RaidModel>, record: RaidModel)
    ensures
        reconciled(set, seq![record]) == observed(set, record),
        notifies(set, seq![record]) == raises(set, record),
{
    let one = seq![record];
    assert(reconciled(set, one.drop_last()) == set);
    assert(!notifies(set, one.drop_last()));
}

/// Where no name occurs twice in a snapshot, the most recent record about
/// the array of its `i`-th record is that record.
pub proof fn lemma_last_seen_distinct(records: Seq<RaidModel>, i: int)
    requires
        distinct_names(records),
        0 <= i < records.len(),
    ensures
        last_seen(records, records[i].name) == Some(records[i]),
        last_seen(records.take(i), records[i].name) is None,
    decreases records.len(),
{
    let name = records[i].name;
    let init = records.drop_last();
    if i == records.len() - 1 {
        lemma_last_seen_none(init, name);
    } else {
        lemma_last_seen_distinct(init, i);
        assert(init.take(i) =~= records.take(i));
    }
}

/// A snapshot that never mentions `name` has no most recent record about it.
pub proof fn lemma_last_seen_none(records: Seq<RaidModel>, name: Seq<char>)
    requires
        forall|j: int| 0 <= j < records.len() ==> (#[trigger] records[j]).name != name,
    ensures
        last_seen(records, name) is None,
    decreases records.len(),
{
    if records.len() > 0 {
        let init = records.drop_last();
        lemma_last_seen_none(init, name);
    }
}

/// The tracked arrays stay well formed: whatever snapshot is reconciled,
/// every tracked array is failing and no array is tracked twice. Records
/// that share a name are about one array and never give two entries.
pub proof fn law_tracker_stays_well_formed(set: Seq<RaidModel>, records: Seq<RaidModel>)
    requires
        well_formed(set),
    ensures
        well_formed(reconciled(set, records)),
    decreases records.len(),
{
    if records.len() > 0 {
        law_tracker_stays_well_formed(set, records.drop_last());
        lemma_observed_well_formed(reconciled(set, records.drop_last()), records.last());
    }
}

/// After a snapshot was reconciled, an array is tracked exactly if the most
/// recent record about it fails; an array that the snapshot does not mention
/// is tracked as before.
pub proof fn law_tracked_iff_last_seen_failing(
    set: Seq<RaidModel>,
    records: Seq<RaidModel>,
    name: Seq<char>,
)
    ensures
        tracks(reconciled(set, records), name) == (match last_seen(records, name) {
            Some(record) => record.is_failing(),
            None => tracks(set, name),
        }),
    decreases records.len(),
{
    if records.len() > 0 {
        law_tracked_iff_last_seen_failing(set, records.drop_last(), name);
        lemma_tracks_observed(reconciled(set, records.drop_last()), records.last(), name);
    }
}

/// Reconciling one snapshot and then another is reconciling the two as one:
/// the tracked arrays are the same, and one of the two cycles notifies
/// exactly if the joint snapshot does. So whatever is said of a snapshot
/// holds of the records of any number of cycles, taken in their order.
pub proof fn law_cycles_compose(
    set: Seq<RaidModel>,
    first: Seq<RaidModel>,
    second: Seq<RaidModel>,
)
    ensures
        reconciled(reconciled(set, first), second) == reconciled(set, first + second),
        notifies(set, first + second) == (notifies(set, first) || notifies(
            reconciled(set, first),
            second,
        )),
    decreases second.len(),
{
    if second.len() > 0 {
        law_cycles_compose(set, first, second.drop_last());
        assert((first + second).drop_last() =~= first + second.drop_last());
    }
}

/// Where no name occurs twice in a snapshot, reconciling it notifies exactly
/// if one of its records fails and its array was not tracked before.
pub proof fn law_notify_iff_new_failure(set: Seq<RaidModel>, records: Seq<RaidModel>)
    requires
        distinct_names(records),
    ensures
        notifies(set, records) <==> exists|i: int|
            0 <= i < records.len() && raises(set, #[trigger] records[i]),
    decreases records.len(),
{
    if records.len() > 0 {
        let init = records.drop_last();
        let last = records.last();
        let n = records.len() - 1;
        law_notify_iff_new_failure(set, init);
        lemma_last_seen_distinct(records, n);
        law_tracked_iff_last_seen_failing(set, init, last.name);
        if exists|i: int| 0 <= i < records.len() && raises(set, #[trigger] records[i]) {
            let i = choose|i: int| 0 <= i < records.len() && raises(set, #[trigger] records[i]);
            if i < n {
                assert(raises(set, init[i]));
            }
        }
    }
}

/// Reconciling an unchanged snapshot a second time notifies nobody and
/// changes nothing, where no name occurs twice in the snapshot.
pub proof fn law_unchanged_snapshot_is_silent(set: Seq<RaidModel>, records: Seq<RaidModel>)
    requires
        distinct_names(records),
    ensures
        !notifies(reconciled(set, records), records),
        reconciled(reconciled(set, records), records) == reconciled(set, records),
{
    let once = reconciled(set, records);
    assert forall|i: int| 0 <= i < records.len() implies tracks(
        once,
        (#[trigger] records[i]).name,
    ) == records[i].is_failing() by {
        lemma_last_seen_distinct(records, i);
        law_tracked_iff_last_seen_failing(set, records, records[i].name);
    }
    law_notify_iff_new_failure(once, records);
    lemma_settled_snapshot_changes_nothing(once, records, records.len() as int);
    assert(records.take(records.len() as int) =~= records);
}

/// A snapshot whose every record agrees with what is tracked leaves the
/// tracked arrays as they are, however far it is reconciled.
proof fn lemma_settled_snapshot_changes_nothing(
    set: Seq<RaidModel>,
    records: Seq<RaidModel>,
    k: int,
)
    requires
        0 <= k <= records.len(),
        forall|i: int|
            0 <= i < records.len() ==> tracks(set, (#[trigger] records[i]).name)
                == records[i].is_failing(),
    ensures
        reconciled(set, records.take(k)) == set,
    decreases k,
{
    if k > 0 {
        lemma_settled_snapshot_changes_nothing(set, records, k - 1);
        assert(records.take(k).drop_last() =~= records.take(k - 1));
    }
}

/// An array that fails and was not tracked notifies, and is tracked
/// afterwards, as the last entry. It holds of the empty tracker.
pub proof fn law_new_failure_alerts(set: Seq<RaidModel>, record: RaidModel)
    requires
        record.is_failing(),
        !tracks(set, record.name),
    ensures
        notifies(set, seq![record]),
        reconciled(set, seq![record]) == set.push(record),
        tracks(reconciled(set, seq![record]), record.name),
{
    lemma_single_record(set, record);
    lemma_tracks_observed(set, record, record.name);
}

/// An array that was tracked and is healthy again notifies nobody, and is
/// tracked no more.
pub proof fn law_recovery_is_silent(set: Seq<RaidModel>, record: RaidModel)
    requires
        !record.is_failing(),
        tracks(set, record.name),
    ensures
        !notifies(set, seq![record]),
        !tracks(reconciled(set, seq![record]), record.name),
{
    lemma_single_record(set, record);
    lemma_tracks_observed(set, record, record.name);
}

/// An array that fails, recovers and fails again notifies the first time,
/// is silent on recovery, and notifies again the third time.
pub proof fn law_flap_alerts_again(
    set: Seq<RaidModel>,
    failing: RaidModel,
    healthy: RaidModel,
    again: RaidModel,
)
    requires
        failing.is_failing(),
        !healthy.is_failing(),
        again.is_failing(),
        healthy.name == failing.name,
        again.name == failing.name,
        !tracks(set, failing.name),
    ensures
        notifies(set, seq![failing]),
        !notifies(reconciled(set, seq![failing]), seq![healthy]),
        notifies(reconciled(reconciled(set, seq![failing]), seq![healthy]), seq![again]),
{
    let first = reconciled(set, seq![failing]);
    law_new_failure_alerts(set, failing);
    law_recovery_is_silent(first, healthy);
    lemma_single_record(reconciled(first, seq![healthy]), again);
}

/// A snapshot of failing arrays, no name twice and at least one of them not
/// tracked before, notifies, and afterwards every array of the snapshot is
/// tracked, the ones that were tracked before among them.
pub proof fn law_batch_alerts_once(set: Seq<RaidModel>, records: Seq<RaidModel>)
    requires
        distinct_names(records),
        forall|i: int| 0 <= i < records.len() ==> (#[trigger] records[i]).is_failing(),
        exists|i: int| 0 <= i < records.len() && !tracks(set, (#[trigger] records[i]).name),
    ensures
        notifies(set, records),
        forall|i: int|
            0 <= i < records.len() ==> tracks(
                reconciled(set, records),
                (#[trigger] records[i]).name,
            ),
        forall|name: Seq<char>| tracks(set, name) ==> tracks(reconciled(set, records), name),
{
    law_notify_iff_new_failure(set, records);
    assert forall|j: int| 0 <= j < records.len() implies tracks(
        reconciled(set, records),
        (#[trigger] records[j]).name,
    ) by {
        lemma_last_seen_distinct(records, j);
        law_tracked_iff_last_seen_failing(set, records, records[j].name);
    }
    assert forall|name: Seq<char>| tracks(set, name) implies tracks(
        reconciled(set, records),
        name,
    ) by {
        law_tracked_iff_last_seen_failing(set, records, name);
        lemma_last_seen_is_record(records, name);
    }
}

/// The most recent record about an array is one of the snapshot's records.
proof fn lemma_last_seen_is_record(records: Seq<RaidModel>, name: Seq<char>)
    ensures
        last_seen(records, name) matches Some(record) ==> exists|i: int|
            0 <= i < records.len() && #[trigger] records[i] == record,
    decreases records.len(),
{
    if records.len() > 0 {
        if records.last().name != name {
            lemma_last_seen_is_record(records.drop_last(), name);
        }
    }
}

/// A failing record about an array that is tracked already, whatever its
/// device counts, changes nothing and notifies nobody: the name alone says
/// which array a record is about.
pub proof fn law_name_alone_identifies(set: Seq<RaidModel>, record: RaidModel)
    requires
        record.is_failing(),
        tracks(set, record.name),
    ensures
        reconciled(set, seq![record]) == set,
        !notifies(set, seq![record]),
{
    lemma_single_record(set, record);
}

} // verus!

//! What the user is told when arrays begin to fail.

use crate::raid::{Raid, RaidModel};
use vstd::prelude::*;
use vstd::string::StringExecFns;

verus! {

/// The headline of every alert.
pub const SUMMARY: &'static str = "One or more raids are failing";

/// What the body of an alert begins with; the list of arrays follows.
pub const BODY_INTRO: &'static str = "The following raids are failing: ";

/// What stands between two arrays in the list: a space and then a comma.
pub const SEPARATOR: &'static str = " ,";

/// The icon that is shown with every alert.
pub const ICON: &'static str = "drive-harddisk";

/// The mathematical content of an [`Alert`].
pub struct AlertModel {
    pub summary: Seq<char>,
    pub body: Seq<char>,
    pub icon: Seq<char>,
}

/// A message for the user: a headline, a body and the name of an icon.
#[derive(Debug)]
pub struct Alert {
    pub summary: String,
    pub body: String,
    pub icon: String,
}

impl View for Alert {
    type V = AlertModel;

    open spec fn view(&self) -> AlertModel {
        AlertModel { summary: self.summary@, body: self.body@, icon: self.icon@ }
    }
}

/// The parts in their order, with `sep` between each two of them.
pub open spec fn joined(parts: Seq<Seq<char>>, sep: Seq<char>) -> Seq<char>
    decreases parts.len(),
{
    if parts.len() == 0 {
        Seq::empty()
    } else if parts.len() == 1 {
        parts[0]
    } else {
        joined(parts.drop_last(), sep) + sep + parts.last()
    }
}

/// The labels of the arrays, in their order.
pub open spec fn labels(set: Seq<RaidModel>) -> Seq<Seq<char>> {
    Seq::new(set.len(), |i: int| set[i].label())
}

/// The list of the arrays as it stands in the body of an alert.
pub open spec fn listed(set: Seq<RaidModel>) -> Seq<char> {
    joined(labels(set), SEPARATOR@)
}

/// The alert that tells of the failing arrays `set`: all of them, not only
/// those that began to fail last.
pub open spec fn alert_for(set: Seq<RaidModel>) -> AlertModel {
    AlertModel { summary: SUMMARY@, body: BODY_INTRO@ + listed(set), icon: ICON@ }
}

/// Lists the arrays, each by its label, in their order.
pub fn raid_list(failing_raids: &Vec<Raid>) -> (list: String)
    ensures
        list@ == listed(failing_raids.deep_view()),
{
    let ghost all = labels(failing_raids.deep_view());
    let mut list = String::new();
    let mut i: usize = 0;
    while i < failing_raids.len()
        invariant
            i <= failing_raids.len(),
            all == labels(failing_raids.deep_view()),
            list@ == joined(all.take(i as int), SEPARATOR@),
        decreases failing_raids.len() - i,
    {
        proof {
            assert(all.take(i + 1).drop_last() =~= all.take(i as int));
        }
        if i > 0 {
            list.append(SEPARATOR);
        }
        let label = failing_raids[i].to_string();
        list.append(label.as_str());
        i += 1;
    }
    assert(all.take(i as int) =~= all);
    list
}

/// Composes the alert that tells of the failing arrays.
pub fn notification(failing_raids: &Vec<Raid>) -> (alert: Alert)
    ensures
        alert@ == alert_for(failing_raids.deep_view()),
{
    let mut body = BODY_INTRO.to_owned();
    let list = raid_list(failing_raids);
    body.append(list.as_str());
    Alert { summary: SUMMARY.to_owned(), body, icon: ICON.to_owned() }
}

} // verus!

//! One array as it appears in a status report.

use crate::digits::{decimal, push_decimal};
use vstd::prelude::*;

verus! {

/// The mathematical content of a [`Raid`].
pub struct RaidModel {
    /// Name of the array, as a sequence of characters.
    pub name: Seq<char>,
    /// Number of member devices the array is configured with.
    pub all_devices: nat,
    /// Number of member devices that are currently active.
    pub current_devices: nat,
}

impl RaidModel {
    /// An array is failing when fewer devices are active than configured.
    pub open spec fn is_failing(self) -> bool {
        self.current_devices < self.all_devices
    }

    /// How the array is shown to the user: its name, then the active and
    /// the configured device count as `(active/configured)`.
    pub open spec fn label(self) -> Seq<char> {
        self.name + seq![' ', '('] + decimal(self.current_devices) + seq!['/'] + decimal(
            self.all_devices,
        ) + seq![')']
    }
}

/// One array of a status report: its name and its two device counts.
#[derive(Debug)]
pub struct Raid {
    pub name: String,
    pub all_devices: u8,
    pub current_devices: u8,
}

impl View for Raid {
    type V = RaidModel;

    open spec fn view(&self) -> RaidModel {
        RaidModel {
            name: self.name@,
            all_devices: self.all_devices as nat,
            current_devices: self.current_devices as nat,
        }
    }
}

impl DeepView for Raid {
    type V = RaidModel;

    open spec fn deep_view(&self) -> RaidModel {
        self@
    }
}

/// Two records are equal when they name the same array, whatever their
/// device counts.
impl PartialEq for Raid {
    fn eq(&self, other: &Self) -> (same: bool) {
        self.name == other.name
    }
}

impl vstd::std_specs::cmp::PartialEqSpecImpl for Raid {
    open spec fn obeys_eq_spec() -> bool {
        true
    }

    open spec fn eq_spec(&self, other: &Self) -> bool {
        self.name@ == other.name@
    }
}

impl Clone for Raid {
    fn clone(&self) -> (copy: Self)
        ensures
            copy@ == self@,
    {
        Raid {
            name: self.name.clone(),
            all_devices: self.all_devices,
            current_devices: self.current_devices,
        }
    }
}

impl Raid {
    /// Whether fewer devices are active than the array is configured with.
    pub fn is_failing(&self) -> (failing: bool)
        ensures
            failing == self@.is_failing(),
    {
        self.current_devices < self.all_devices
    }

    /// The text that stands for this array in an alert.
    pub fn to_string(&self) -> (text: String)
        ensures
            text@ == self@.label(),
    {
        let mut text = self.name.clone();
        text.push(' ');
        text.push('(');
        push_decimal(&mut text, self.current_devices);
        text.push('/');
        push_decimal(&mut text, self.all_devices);
        text.push(')');
        text
    }
}

} // verus!

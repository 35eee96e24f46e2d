//! Monitoring logic for software-RAID arrays: parsing the kernel's status
//! report into array records, tracking which arrays are degraded, and
//! deciding when the user has to be alerted.

pub mod alert;
pub mod digits;
pub mod laws;
pub mod monitor;
pub mod parser;
pub mod pattern;
pub mod raid;
pub mod tracker;

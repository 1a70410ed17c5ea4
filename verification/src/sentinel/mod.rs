//! The system sentinel: what the package manager did to the machine, and
//! how much each change matters.
pub mod change;
pub mod packages;
pub mod summary;
pub mod version;

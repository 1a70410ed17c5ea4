//! The permission gate's rules: what a plan risks, and whether the user's
//! answer is a clear yes.
pub mod audit;
pub mod gate;
pub mod risk;

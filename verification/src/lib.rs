//! The verified core of MAVIS, a desktop companion: the rules that decide
//! what it says, what it lets run, and what it notices about the machine.
pub mod audio;
pub mod bridge;
pub mod clock;
pub mod compositor;
pub mod context;
pub mod engine;
pub mod executor;
pub mod json;
pub mod memory;
pub mod models;
pub mod planner;
pub mod platform;
pub mod safety;
pub mod system;
pub mod sentinel;
pub mod text;
pub mod ui;
pub mod util;

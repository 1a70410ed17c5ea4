//! The assistant's memory: the working set for the current session, what
//! was said and can be recalled, the things the user works with.
pub mod entities;
pub mod episodic;
pub mod long_term;
pub mod permanent;
pub mod recall;
pub mod working;

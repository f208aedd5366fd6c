//! The decision core of a shutdown sweep: which process-listing entries are
//! candidates, the order of freeze, signal and thaw, and how the bounded wait
//! for confirmed exit is folded into one outcome.

pub mod entry;
pub mod laws;
pub mod outcome;
pub mod sweep;

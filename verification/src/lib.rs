//! A verified simulator for deterministic single-tape Turing machines.
//!
//! A machine is a finite table of transition rules together with an initial
//! control state and a set of accepting states.  The engine executes the
//! machine on an input string laid out on a growable tape and reports the
//! final tape contents, a halting status, and an ordered trace of the steps
//! taken.

pub mod engine;
pub mod machine;
pub mod tape;

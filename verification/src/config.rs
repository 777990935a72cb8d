//! Gameplay timing configuration, consumed by the core as plain values.
//!
//! All delays are in integer milliseconds.  Key-code names, sprite paths
//! and render scaling belong to the shell around the core, not here.

use vstd::prelude::*;

verus! {

/// The three timing parameters of the state machine:
/// - `step_delay`: interval between automatic downward steps, and also the
///   lock delay a grounded piece is granted before it commits;
/// - `first_repeat_delay`: delay before a held directional key first
///   repeats;
/// - `repeat_delay`: cadence of subsequent repeats while the key is held.
#[derive(Clone, Copy, PartialEq, Eq, Structural, Debug)]
pub struct GameConfig {
    pub step_delay: u64,
    pub first_repeat_delay: u64,
    pub repeat_delay: u64,
}

impl GameConfig {
    /// Well-formedness: the automatic step interval is positive, so time
    /// always advances between gravity steps.
    pub open spec fn wf(self) -> bool {
        self.step_delay >= 1
    }

    /// The default timing: 500 ms step delay, 150 ms first repeat,
    /// 50 ms repeat cadence.
    pub fn new() -> (c: Self)
        ensures
            c == (GameConfig { step_delay: 500u64, first_repeat_delay: 150u64, repeat_delay: 50u64 }),
            c.wf(),
    {
        GameConfig { step_delay: 500, first_repeat_delay: 150, repeat_delay: 50 }
    }
}

} // verus!

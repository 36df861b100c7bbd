//! Wiring and mechanics of the default motor.
use vstd::prelude::*;

verus! {

/// GPIO number of the STEP line.
pub const STEP_PIN: u8 = 4;

/// GPIO number of the DIRECTION line.
pub const DIR_PIN: u8 = 3;

/// GPIO number of the SLEEP line, which keeps the driver awake while high.
pub const SLEEP_PIN: u8 = 5;

/// Steps per revolution.
pub const SPR: usize = 200;

/// Angle of a single step, in thousandths of a degree.
pub const ANGLE: u32 = 1800;

/// The nominal interval between two scheduling points of a pulse, in
/// microseconds: the fastest rate the driver hardware tolerates.
pub const MAX_SPEED: u64 = 450;

} // verus!

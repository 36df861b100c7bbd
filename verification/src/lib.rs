//! Pulse engine for a bipolar stepper motor, with the plain data of the
//! network and logging layers around it.
//!
//! The engine is a state machine that turns a step count and a step interval
//! into a sequence of STEP edges and timed waits. It never touches hardware:
//! each call returns the one thing the caller has to do next (drive a line,
//! suspend for some microseconds), and the caller calls again when that is
//! done.
mod clock;
pub mod net;
pub mod rlog;
pub mod stepper;

//! An interruptible Morse "SOS" beacon: a pulse-timing state machine that
//! drives one output pin and consults a sensor gate at every boundary.

pub mod timing;
pub mod gate;
pub mod driver;
pub mod run;
pub mod laws;

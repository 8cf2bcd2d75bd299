//! The core of a terminal audio player: the bounded window of recent samples
//! that feeds the live spectrum, the whole-track waveform envelope, the
//! transport state machine with its input actions, and clock formatting.

pub mod controls;
pub mod envelope;
pub mod timefmt;
pub mod transport;
pub mod window;

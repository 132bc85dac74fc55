//! Host-side driver for a wireless co-processor module on a synchronous
//! serial bus with four control lines.
//!
//! The driver performs no input or output itself. It decides what has to
//! happen on the bus and on the control lines, one [`wifi::Action`] at a
//! time, and is told what came of it, one [`wifi::Event`] at a time. The
//! code that owns the bus carries the actions out.

pub mod command;
pub mod control;
pub mod error;
pub mod frame;
pub mod reply;
pub mod wifi;

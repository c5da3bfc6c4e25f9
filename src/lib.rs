//! Board support logic for the Thunderboard Sense (SLTB001A): the protocol spoken with the
//! board's power and interrupt controller (PIC), the one-slot mailbox that hands the board's
//! peripherals over to a timer interrupt, and the status display that this interrupt drives.
//!
//! Hardware is reached through the small traits of [`hal`]; everything above them is verified.

pub mod board;
pub mod hal;
pub mod mailbox;
pub mod pic;
pub mod status;

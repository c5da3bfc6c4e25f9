//! The hardware edges that the verified logic drives: the PIC's port (an I2C master, the wake
//! line and a busy-wait delay), the two user buttons and the two user LEDs.
//!
//! A board implements these traits. Each method states, over a view of the implementing value,
//! what the call did: the port keeps the ordered record of everything asked of it, the buttons
//! the values they returned, the LEDs their levels. The verified logic is proved against these
//! statements; an implementation is trusted to keep them.
use vstd::prelude::*;

verus! {

/// Failure of a single I2C transaction.
#[derive(Clone, Copy, Debug, PartialEq, Eq, Structural)]
pub enum BusError {
    /// The bus was not idle when the transaction was started.
    NotReady,
    /// Another master took control of the bus.
    ArbitrationLost,
    /// No device acknowledged the address.
    AddressNack,
    /// A data byte was not acknowledged.
    DataNack,
}

/// One thing asked of the PIC's port, with what the bus answered.
pub enum WireEvent {
    /// The wake line was pulled low.
    WakeAsserted,
    /// The wake line was let go back to idle (high).
    WakeReleased,
    /// A busy wait of so many microseconds.
    Delay(u16),
    /// A write of bytes to a 7-bit address, with its outcome.
    Write(u8, Seq<u8>, Result<(), BusError>),
    /// A read of one byte from a 7-bit address, with its outcome.
    Read(u8, Result<u8, BusError>),
}

/// The record of a port, as the verifier sees it.
pub type Wire = Seq<WireEvent>;

/// The values that a button returned, as the verifier sees them.
pub type Samples = Seq<bool>;

/// What the PIC is reached through: the I2C master, the open-drain wake line (idle high) and a
/// busy-wait delay.
pub trait PicPort {
    /// Everything asked of the port so far, in order.
    spec fn wire(&self) -> Wire;

    /// Pull the wake line low.
    fn wake_low(&mut self)
        ensures
            final(self).wire() == old(self).wire().push(WireEvent::WakeAsserted),
    ;

    /// Let the wake line go back to idle.
    fn wake_high(&mut self)
        ensures
            final(self).wire() == old(self).wire().push(WireEvent::WakeReleased),
    ;

    /// Busy-wait for `us` microseconds.
    fn delay_us(&mut self, us: u16)
        ensures
            final(self).wire() == old(self).wire().push(WireEvent::Delay(us)),
    ;

    /// Write `bytes` to the device at the 7-bit address `addr`.
    fn write(&mut self, addr: u8, bytes: &[u8]) -> (r: Result<(), BusError>)
        ensures
            final(self).wire() == old(self).wire().push(WireEvent::Write(addr, bytes@, r)),
    ;

    /// Read one byte from the device at the 7-bit address `addr`.
    fn read_byte(&mut self, addr: u8) -> (r: Result<u8, BusError>)
        ensures
            final(self).wire() == old(self).wire().push(WireEvent::Read(addr, r)),
    ;
}

/// The two user buttons.
pub trait ButtonInput {
    /// The values that `button0_pressed` returned so far, in order.
    spec fn button0_samples(&self) -> Samples;

    /// The values that `button1_pressed` returned so far, in order.
    spec fn button1_samples(&self) -> Samples;

    /// Whether button 0 is held down now.
    fn button0_pressed(&mut self) -> (r: bool)
        ensures
            final(self).button0_samples() == old(self).button0_samples().push(r),
            final(self).button1_samples() == old(self).button1_samples(),
    ;

    /// Whether button 1 is held down now.
    fn button1_pressed(&mut self) -> (r: bool)
        ensures
            final(self).button1_samples() == old(self).button1_samples().push(r),
            final(self).button0_samples() == old(self).button0_samples(),
    ;
}

/// The two user LEDs on the main controller.
pub trait LedOutput {
    /// Whether LED 0 is lit.
    spec fn led0(&self) -> bool;

    /// Whether LED 1 is lit.
    spec fn led1(&self) -> bool;

    fn led0_on(&mut self)
        ensures
            final(self).led0(),
            final(self).led1() == old(self).led1(),
    ;

    fn led0_off(&mut self)
        ensures
            !final(self).led0(),
            final(self).led1() == old(self).led1(),
    ;

    fn led1_on(&mut self)
        ensures
            final(self).led1(),
            final(self).led0() == old(self).led0(),
    ;

    fn led1_off(&mut self)
        ensures
            !final(self).led1(),
            final(self).led0() == old(self).led0(),
    ;
}

} // verus!

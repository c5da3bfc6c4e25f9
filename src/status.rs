//! The status display that the periodic timer interrupt drives.
//!
//! Each tick advances a counter through 0..8. The four RGB LEDs behind the PIC show a light
//! that moves on every second tick, LED 0 of the main controller follows button 1 (lit while
//! it is up) on even ticks, and LED 1 flashes on odd ticks unless button 0 is held down.
use vstd::prelude::*;

use crate::hal::{BusError, ButtonInput, LedOutput, PicPort};
use crate::mailbox::Mailbox;
use crate::pic::{register_write, spec_led_bits, PIC, REG_LEDS};

verus! {

/// The number of ticks in one cycle of the display.
pub const CYCLE: u8 = 8;

/// The peripherals that the interrupt takes over from the main program.
pub struct Peripherals<Bt, L, P> {
    pub buttons: Bt,
    pub leds: L,
    pub pic: PIC<P>,
}

/// The register byte that lights RGB LED `phase` alone.
pub open spec fn indicator_bits(phase: int) -> u8 {
    spec_led_bits(phase == 0, phase == 1, phase == 2, phase == 3)
}

/// The interrupt's own state: the peripherals once they have arrived, and the tick counter.
pub struct StatusState<Bt, L, P> {
    held: Option<Peripherals<Bt, L, P>>,
    counter: u8,
}

impl<Bt: ButtonInput, L: LedOutput, P: PicPort> StatusState<Bt, L, P> {
    pub closed spec fn wf(&self) -> bool {
        self.counter < CYCLE
    }

    pub closed spec fn counter(&self) -> u8 {
        self.counter
    }

    /// The peripherals, once they have been taken out of the mailbox.
    pub closed spec fn held(&self) -> Option<Peripherals<Bt, L, P>> {
        self.held
    }

    /// Whether the peripherals have been taken out of the mailbox.
    pub open spec fn holds(&self) -> bool {
        self.held() is Some
    }

    /// The held peripherals.
    pub open spec fn peripherals(&self) -> Peripherals<Bt, L, P> {
        self.held()->Some_0
    }

    pub fn new() -> (r: Self)
        ensures
            r.wf(),
            r.counter() == 0,
            !r.holds(),
    {
        StatusState { held: None, counter: 0 }
    }

    pub fn counter_value(&self) -> (r: u8)
        ensures
            r == self.counter(),
    {
        self.counter
    }

    pub fn holds_peripherals(&self) -> (r: bool)
        ensures
            r == self.holds(),
    {
        self.held.is_some()
    }

    /// One timer tick (the caller has acknowledged the interrupt).
    ///
    /// Until the peripherals are held, the tick only tries to take them from the mailbox. Once
    /// they are, the mailbox is never looked at again and the tick drives the display:
    /// - on an even tick, it lights RGB LED `counter / 2` alone, switches LED 1 off, samples
    ///   button 1 and lights LED 0 exactly when that button is up;
    /// - on an odd tick, it samples button 0 and lights LED 1 when that button is up.
    ///
    /// A failed bus write makes no other call, leaves the counter where it was and is handed
    /// to the caller.
    pub fn on_tick(&mut self, mailbox: &mut Mailbox<Peripherals<Bt, L, P>>) -> (r: Result<
        (),
        BusError,
    >)
        requires
            old(self).wf(),
        ensures
            final(self).wf(),
            !old(self).holds() ==> {
                &&& final(self).held() == old(mailbox)@
                &&& final(mailbox)@ is None
                &&& final(self).counter() == old(self).counter()
                &&& r is Ok
            },
            old(self).holds() ==> {
                &&& final(self).holds()
                &&& final(mailbox)@ == old(mailbox)@
            },
            old(self).holds() && old(self).counter() % 2 == 0 ==> {
                let p0 = old(self).peripherals();
                let p1 = final(self).peripherals();
                &&& p1.pic.trace() == p0.pic.trace() + register_write(
                    REG_LEDS,
                    indicator_bits(old(self).counter() as int / 2),
                    r,
                )
                &&& r is Err ==> {
                    &&& final(self).counter() == old(self).counter()
                    &&& p1.buttons.button0_samples() == p0.buttons.button0_samples()
                    &&& p1.buttons.button1_samples() == p0.buttons.button1_samples()
                    &&& p1.leds.led0() == p0.leds.led0()
                    &&& p1.leds.led1() == p0.leds.led1()
                }
                &&& r is Ok ==> {
                    &&& final(self).counter() == (old(self).counter() + 1) % (CYCLE as int)
                    &&& p1.buttons.button0_samples() == p0.buttons.button0_samples()
                    &&& p1.buttons.button1_samples() == p0.buttons.button1_samples().push(
                        p1.buttons.button1_samples().last(),
                    )
                    &&& p1.leds.led0() == !p1.buttons.button1_samples().last()
                    &&& !p1.leds.led1()
                }
            },
            old(self).holds() && old(self).counter() % 2 == 1 ==> {
                let p0 = old(self).peripherals();
                let p1 = final(self).peripherals();
                &&& r is Ok
                &&& final(self).counter() == (old(self).counter() + 1) % (CYCLE as int)
                &&& p1.pic.trace() == p0.pic.trace()
                &&& p1.buttons.button0_samples() == p0.buttons.button0_samples().push(
                    p1.buttons.button0_samples().last(),
                )
                &&& p1.buttons.button1_samples() == p0.buttons.button1_samples()
                &&& p1.leds.led0() == p0.leds.led0()
                &&& p1.leds.led1() == (p0.leds.led1() || !p1.buttons.button0_samples().last())
            },
    {
        match self.held.take() {
            None => {
                self.held = mailbox.dequeue();
                Ok(())
            },
            Some(mut p) => {
                let count = self.counter / 2;
                let parity = self.counter % 2;
                let r = if parity == 0 {
                    let w = p.pic.set_leds(count == 0, count == 1, count == 2, count == 3);
                    match w {
                        Err(e) => Err(e),
                        Ok(()) => {
                            p.leds.led1_off();
                            let pressed = p.buttons.button1_pressed();
                            if pressed {
                                p.leds.led0_off();
                            } else {
                                p.leds.led0_on();
                            }
                            self.counter = (self.counter + 1) % CYCLE;
                            w
                        },
                    }
                } else {
                    let pressed = p.buttons.button0_pressed();
                    if !pressed {
                        p.leds.led1_on();
                    }
                    self.counter = (self.counter + 1) % CYCLE;
                    Ok(())
                };
                self.held = Some(p);
                r
            },
        }
    }
}

} // verus!

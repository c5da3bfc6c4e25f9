//! Bring-up of the board's PIC: the PIC is not reset together with the main controller, so its
//! LEDs are switched off, and its device identification is checked before anything relies on it.
use vstd::prelude::*;

use crate::hal::{BusError, PicPort, WireEvent};
use crate::pic::{
    read_failed, read_steps, register_write, spec_led_bits, transaction, PIC, REG_ID_BASE, REG_LEDS,
};

verus! {

/// Why bring-up failed.
#[derive(Clone, Copy, Debug, PartialEq, Eq)]
pub enum BringUpError {
    /// A bus transaction with the PIC failed.
    Bus(BusError),
    /// The PIC's device identification differs from the expected one; the variant carries the
    /// identification that was read.
    DeviceIdMismatch([u8; 4]),
}

/// The device identification of the board's PIC.
pub open spec fn expected_device_id() -> Seq<u8> {
    seq![0x49u8, 0x4fu8, 0x58u8, 0x50u8]
}

pub open spec fn spec_check_device_id(id: [u8; 4]) -> Result<(), BringUpError> {
    if id@ == expected_device_id() {
        Ok(())
    } else {
        Err(BringUpError::DeviceIdMismatch(id))
    }
}

/// Accept the PIC's device identification, or refuse it with what was read.
pub fn check_device_id(id: [u8; 4]) -> (r: Result<(), BringUpError>)
    ensures
        r == spec_check_device_id(id),
{
    if id[0] == 0x49 && id[1] == 0x4f && id[2] == 0x58 && id[3] == 0x50 {
        assert(id@ =~= expected_device_id());
        Ok(())
    } else {
        Err(BringUpError::DeviceIdMismatch(id))
    }
}

/// `t1` is `t0` followed by the write that powers off all four RGB LEDs, with outcome `w`.
pub open spec fn leds_cleared(t0: Seq<WireEvent>, t1: Seq<WireEvent>, w: Result<(), BusError>) -> bool {
    t1 == t0 + register_write(REG_LEDS, spec_led_bits(false, false, false, false), w)
}

/// `t1` is `t0` followed by a read of the device identification that failed with `e`.
pub open spec fn id_read_failed(t0: Seq<WireEvent>, t1: Seq<WireEvent>, e: BusError) -> bool {
    read_failed(t0, t1, REG_ID_BASE, 4, e)
}

/// Switch the PIC's LEDs off, then read and check its device identification. The first bus
/// failure ends bring-up.
pub fn bring_up_pic<P: PicPort>(pic: &mut PIC<P>) -> (r: Result<(), BringUpError>)
    ensures
        final(pic).trace().last() == WireEvent::WakeReleased,
        exists|mid: Seq<WireEvent>, w: Result<(), BusError>| #[trigger] leds_cleared(old(pic).trace(), mid, w) && {
            &&& w matches Err(e) ==> final(pic).trace() == mid && r == Err::<(), BringUpError>(BringUpError::Bus(e))
            &&& w is Ok ==> {
                ||| exists|id: [u8; 4]| final(pic).trace() == mid + #[trigger] transaction(read_steps(REG_ID_BASE, id@))
                        && r == spec_check_device_id(id)
                ||| exists|f: BusError| #[trigger] id_read_failed(mid, final(pic).trace(), f)
                        && r == Err::<(), BringUpError>(BringUpError::Bus(f))
            }
        },
{
    let ghost t0 = pic.trace();
    let w = pic.set_leds(false, false, false, false);
    let ghost mid = pic.trace();
    assert(leds_cleared(t0, mid, w));
    match w {
        Err(e) => Err(BringUpError::Bus(e)),
        Ok(()) => {
            match pic.read_device_id() {
                Ok(id) => {
                    assert(pic.trace() == mid + transaction(read_steps(REG_ID_BASE, id@)));
                    check_device_id(id)
                },
                Err(e) => {
                    assert(id_read_failed(mid, pic.trace(), e));
                    Err(BringUpError::Bus(e))
                },
            }
        },
    }
}

} // verus!

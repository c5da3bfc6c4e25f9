//! The PIC, the board's power and interrupt controller: an EFM8SB that sits on the I2C bus and
//! has to be woken by pulling its wake line low before every transaction.
use vstd::prelude::*;

use crate::hal::{BusError, PicPort, WireEvent};

verus! {

/// The PIC's 7-bit I2C address.
pub const ADDR: u8 = 0x48;

/// Power of the inertial sensor and of the environmental sensor group.
pub const REG_IMU: u8 = 0x01;

/// Power of the microphone.
pub const REG_MIC: u8 = 0x02;

/// Power and wake state of the indoor air quality sensor.
pub const REG_CCS: u8 = 0x03;

/// Power of the four RGB LEDs.
pub const REG_LEDS: u8 = 0x04;

/// Interrupt mask: set.
pub const REG_INT_SET: u8 = 0x05;

/// Interrupt mask: clear.
pub const REG_INT_CLEAR: u8 = 0x06;

/// Pending interrupts.
pub const REG_INT_PENDING: u8 = 0x07;

/// Interrupt line mode.
pub const REG_INT_MODE: u8 = 0x08;

/// First register of the firmware version and of the device identification.
pub const REG_ID_BASE: u8 = 0xf8;

/// Microseconds that the PIC needs between the wake line going low and the first transaction.
pub const WAKE_SETTLE_US: u16 = 5;

/// `value` where `b` holds, else 0: one bit field of a register byte.
pub open spec fn flag(b: bool, value: int) -> int {
    if b {
        value
    } else {
        0
    }
}

/// A set of the PIC's interrupt sources.
#[derive(Clone, Copy, Debug, PartialEq, Eq, Structural)]
pub struct InterruptSet {
    pub ccs: bool,
    pub imu: bool,
    pub uv: bool,
}

impl InterruptSet {
    /// The register byte of the set: `ccs` in bit 0, `imu` in bit 1, `uv` in bit 2.
    pub open spec fn spec_bits(self) -> u8 {
        (flag(self.ccs, 1) + flag(self.imu, 2) + flag(self.uv, 4)) as u8
    }

    /// The set that a register byte stands for; bits 3 to 7 are ignored.
    pub open spec fn spec_from_bits(byte: u8) -> InterruptSet {
        InterruptSet { ccs: byte % 2 == 1, imu: (byte / 2) % 2 == 1, uv: (byte / 4) % 2 == 1 }
    }

    pub fn to_bits(&self) -> (r: u8)
        ensures
            r == self.spec_bits(),
            r < 8,
    {
        let ccs = self.ccs as u8;
        let imu = self.imu as u8;
        let uv = self.uv as u8;
        let r = ccs | (imu << 1u8) | (uv << 2u8);
        assert(ccs <= 1 && imu <= 1 && uv <= 1 ==> ccs | (imu << 1u8) | (uv << 2u8) == ccs + 2
            * imu + 4 * uv) by (bit_vector);
        r
    }

    pub fn from_bits(byte: u8) -> (r: InterruptSet)
        ensures
            r == InterruptSet::spec_from_bits(byte),
    {
        assert(((byte & 0x01) != 0) == (byte % 2 == 1) && ((byte & 0x02) != 0) == ((byte / 2) % 2
            == 1) && ((byte & 0x04) != 0) == ((byte / 4) % 2 == 1)) by (bit_vector);
        InterruptSet { ccs: (byte & 0x01) != 0, imu: (byte & 0x02) != 0, uv: (byte & 0x04) != 0 }
    }
}

/// Decoding the register byte of an interrupt set gives the set back.
pub proof fn lemma_interrupt_set_round_trip(s: InterruptSet)
    ensures
        InterruptSet::spec_from_bits(s.spec_bits()) == s,
{
}

/// How the PIC drives its interrupt line.
#[derive(Clone, Copy, Debug, PartialEq, Eq, Structural)]
pub enum InterruptConfiguration {
    /// Pull low once when an interrupt arrives (the default).
    SinglePulse,
    /// Pull low as long as an interrupt is set.
    Latched,
    /// Pull low in periodic intervals as long as an interrupt is set; the period must be below 8.
    Periodic(u8),
}

/// A configuration that the PIC cannot take.
#[derive(Clone, Copy, Debug, PartialEq, Eq, Structural)]
pub enum ConfigError {
    /// A periodic mode whose period is 8 or more.
    InvalidPeriod(u8),
}

impl InterruptConfiguration {
    /// The mode register byte, or none where the period does not fit in three bits. A periodic
    /// mode sets bit 3 and carries its period in bits 2 to 0.
    pub open spec fn spec_bits(self) -> Option<u8> {
        match self {
            InterruptConfiguration::SinglePulse => Some(0x00u8),
            InterruptConfiguration::Latched => Some(0x10u8),
            InterruptConfiguration::Periodic(p) => if p < 8 {
                Some((0x08 + p) as u8)
            } else {
                None
            },
        }
    }

    pub fn to_bits(&self) -> (r: Result<u8, ConfigError>)
        ensures
            self.spec_bits() matches Some(b) ==> r == Ok::<u8, ConfigError>(b),
            self.spec_bits() is None ==> r == Err::<u8, ConfigError>(
                ConfigError::InvalidPeriod(self->Periodic_0),
            ),
    {
        match *self {
            InterruptConfiguration::SinglePulse => Ok(0x00),
            InterruptConfiguration::Latched => Ok(0x10),
            InterruptConfiguration::Periodic(p) => {
                if p < 8 {
                    assert(p < 8 ==> p | 0x08 == 0x08 + p) by (bit_vector);
                    Ok(p | 0x08)
                } else {
                    Err(ConfigError::InvalidPeriod(p))
                }
            },
        }
    }
}

/// The register byte that powers the four RGB LEDs: their enables in bits 7 to 4, in order, and
/// in bit 0 a master enable that is set when any of them is.
pub open spec fn spec_led_bits(led0: bool, led1: bool, led2: bool, led3: bool) -> u8 {
    (flag(led0, 0x80) + flag(led1, 0x40) + flag(led2, 0x20) + flag(led3, 0x10) + flag(
        led0 || led1 || led2 || led3,
        0x01,
    )) as u8
}

pub fn led_bits(led0: bool, led1: bool, led2: bool, led3: bool) -> (r: u8)
    ensures
        r == spec_led_bits(led0, led1, led2, led3),
{
    let a = led0 as u8;
    let b = led1 as u8;
    let c = led2 as u8;
    let d = led3 as u8;
    let any = (led0 || led1 || led2 || led3) as u8;
    assert(a <= 1 && b <= 1 && c <= 1 && d <= 1 && any <= 1 ==> (a << 7u8) | (b << 6u8) | (c
        << 5u8) | (d << 4u8) | any == 0x80 * a + 0x40 * b + 0x20 * c + 0x10 * d + any)
        by (bit_vector);
    (a << 7u8) | (b << 6u8) | (c << 5u8) | (d << 4u8) | any
}

/// In the LED power byte, bit 0 is set exactly when any LED is enabled, bits 7 to 4 are the
/// enables of LEDs 0 to 3, and bits 3 to 1 are clear.
pub proof fn lemma_led_bits_layout(led0: bool, led1: bool, led2: bool, led3: bool)
    ensures
        (spec_led_bits(led0, led1, led2, led3) & 0x01 != 0) == (led0 || led1 || led2 || led3),
        (spec_led_bits(led0, led1, led2, led3) & 0x80 != 0) == led0,
        (spec_led_bits(led0, led1, led2, led3) & 0x40 != 0) == led1,
        (spec_led_bits(led0, led1, led2, led3) & 0x20 != 0) == led2,
        (spec_led_bits(led0, led1, led2, led3) & 0x10 != 0) == led3,
        spec_led_bits(led0, led1, led2, led3) & 0x0e == 0,
{
    let a: u8 = if led0 { 1 } else { 0 };
    let b: u8 = if led1 { 1 } else { 0 };
    let c: u8 = if led2 { 1 } else { 0 };
    let d: u8 = if led3 { 1 } else { 0 };
    let any: u8 = if led0 || led1 || led2 || led3 { 1 } else { 0 };
    let x = spec_led_bits(led0, led1, led2, led3);
    assert(x == (0x80 * a + 0x40 * b + 0x20 * c + 0x10 * d + any) as u8);
    assert(x & 0x01 != 0 <==> any == 1) by (bit_vector)
        requires
            a <= 1 && b <= 1 && c <= 1 && d <= 1 && any <= 1,
            x == (0x80 * a + 0x40 * b + 0x20 * c + 0x10 * d + any) as u8,
    ;
    assert((x & 0x80 != 0 <==> a == 1) && (x & 0x40 != 0 <==> b == 1) && (x & 0x20 != 0 <==> c
        == 1) && (x & 0x10 != 0 <==> d == 1) && x & 0x0e == 0) by (bit_vector)
        requires
            a <= 1 && b <= 1 && c <= 1 && d <= 1 && any <= 1,
            x == (0x80 * a + 0x40 * b + 0x20 * c + 0x10 * d + any) as u8,
    ;
}

/// The register byte of the air quality sensor: power in bit 0, wake state in bit 1.
pub open spec fn spec_ccs_bits(enable: bool, wake: bool) -> u8 {
    (flag(enable, 1) + flag(wake, 2)) as u8
}

pub fn ccs_bits(enable: bool, wake: bool) -> (r: u8)
    ensures
        r == spec_ccs_bits(enable, wake),
{
    let e = enable as u8;
    let w = wake as u8;
    assert(e <= 1 && w <= 1 ==> e | (w << 1u8) == e + 2 * w) by (bit_vector);
    e | (w << 1u8)
}

} // verus!

verus! {

/// Failure of a driver operation that takes a configuration.
#[derive(Clone, Copy, Debug, PartialEq, Eq, Structural)]
pub enum PicError {
    /// The configuration was refused; the bus was not touched.
    Config(ConfigError),
    /// The bus transaction failed.
    Bus(BusError),
}

pub open spec fn bus_result(w: Result<(), BusError>) -> Result<(), PicError> {
    match w {
        Ok(()) => Ok(()),
        Err(e) => Err(PicError::Bus(e)),
    }
}

pub open spec fn is_bus_event(e: WireEvent) -> bool {
    e is Write || e is Read
}

/// One operation as seen on the wires: wake, settle, the bus events, release.
pub open spec fn transaction(body: Seq<WireEvent>) -> Seq<WireEvent> {
    seq![WireEvent::WakeAsserted, WireEvent::Delay(WAKE_SETTLE_US)] + body + seq![
        WireEvent::WakeReleased,
    ]
}

/// The events of `t` past its first `n`.
pub open spec fn events_after(t: Seq<WireEvent>, n: int) -> Seq<WireEvent> {
    t.subrange(n, t.len() as int)
}

/// The wake line goes low at the start of `t`, the PIC is given its settle time, then only bus
/// transactions follow while the line is held, and `t` ends with the line back at idle.
pub open spec fn wake_bracketed(t: Seq<WireEvent>) -> bool {
    &&& t.len() >= 3
    &&& t[0] == WireEvent::WakeAsserted
    &&& t[1] == WireEvent::Delay(WAKE_SETTLE_US)
    &&& t.last() == WireEvent::WakeReleased
    &&& forall|i: int| 2 <= i < t.len() - 1 ==> #[trigger] is_bus_event(t[i])
}

/// The events of one register write.
pub open spec fn register_write(reg: u8, value: u8, r: Result<(), BusError>) -> Seq<WireEvent> {
    transaction(seq![WireEvent::Write(ADDR, seq![reg, value], r)])
}

/// The bus events of a successful read of one register.
pub open spec fn read_one(reg: u8, b: u8) -> Seq<WireEvent> {
    seq![WireEvent::Write(ADDR, seq![reg], Ok(())), WireEvent::Read(ADDR, Ok(b))]
}

/// The bus events of reading `bytes`, one register each, from register `base` on.
pub open spec fn read_steps(base: u8, bytes: Seq<u8>) -> Seq<WireEvent>
    decreases bytes.len(),
{
    if bytes.len() == 0 {
        seq![]
    } else {
        read_steps(base, bytes.drop_last()) + read_one(
            (base + bytes.len() - 1) as u8,
            bytes.last(),
        )
    }
}

/// The bus events of a failed read of one register: the write of the register number fails, or
/// it succeeds and the read fails.
pub open spec fn read_failure(reg: u8, e: BusError, write_failed: bool) -> Seq<WireEvent> {
    if write_failed {
        seq![WireEvent::Write(ADDR, seq![reg], Err(e))]
    } else {
        seq![WireEvent::Write(ADDR, seq![reg], Ok(())), WireEvent::Read(ADDR, Err(e))]
    }
}

/// `t1` is `t0` followed by a read of `n` registers from `base` on that failed with `e`, after
/// `got` had been read.
pub open spec fn read_failed_after(
    t0: Seq<WireEvent>,
    t1: Seq<WireEvent>,
    base: u8,
    got: Seq<u8>,
    n: nat,
    e: BusError,
    write_failed: bool,
) -> bool {
    &&& got.len() < n
    &&& t1 == t0 + transaction(read_steps(base, got) + read_failure((base + got.len()) as u8, e, write_failed))
}

/// `t1` is `t0` followed by a read of `n` registers from `base` on that failed with `e`.
pub open spec fn read_failed(t0: Seq<WireEvent>, t1: Seq<WireEvent>, base: u8, n: nat, e: BusError) -> bool {
    exists|got: Seq<u8>, wf: bool| #[trigger] read_failed_after(t0, t1, base, got, n, e, wf)
}

proof fn lemma_read_steps_bus_only(base: u8, bytes: Seq<u8>)
    ensures
        read_steps(base, bytes).len() == 2 * bytes.len(),
        forall|i: int| 0 <= i < read_steps(base, bytes).len() ==> #[trigger] is_bus_event(read_steps(base, bytes)[i]),
    decreases bytes.len(),
{
    if bytes.len() > 0 {
        lemma_read_steps_bus_only(base, bytes.drop_last());
        let a = read_steps(base, bytes.drop_last());
        let b = read_one((base + bytes.len() - 1) as u8, bytes.last());
        assert forall|i: int| 0 <= i < (a + b).len() implies #[trigger] is_bus_event((a + b)[i]) by {
            if i >= a.len() {
                assert((a + b)[i] == b[i - a.len()]);
            }
        }
    }
}

proof fn lemma_transaction_bracketed(body: Seq<WireEvent>)
    requires
        forall|i: int| 0 <= i < body.len() ==> #[trigger] is_bus_event(body[i]),
    ensures
        wake_bracketed(transaction(body)),
{
    let t = transaction(body);
    assert forall|i: int| 2 <= i < t.len() - 1 implies #[trigger] is_bus_event(t[i]) by {
        assert(t[i] == body[i - 2]);
    }
}

proof fn lemma_read_failure_bracketed(base: u8, got: Seq<u8>, e: BusError, wf: bool)
    ensures
        wake_bracketed(transaction(read_steps(base, got) + read_failure((base + got.len()) as u8, e, wf))),
{
    lemma_read_steps_bus_only(base, got);
    let a = read_steps(base, got);
    let b = read_failure((base + got.len()) as u8, e, wf);
    assert forall|i: int| 0 <= i < (a + b).len() implies #[trigger] is_bus_event((a + b)[i]) by {
        if i >= a.len() {
            assert((a + b)[i] == b[i - a.len()]);
        }
    }
    lemma_transaction_bracketed(a + b);
}

/// Driver of the PIC.
///
/// It owns the PIC's port and wraps every register access in the wake handshake: the line goes
/// low, the PIC is given `WAKE_SETTLE_US` to wake up, the transactions run, and the line is let
/// go again whatever their outcome.
pub struct PIC<P> {
    port: P,
}

impl<P: PicPort> PIC<P> {
    /// The port that the driver owns.
    pub closed spec fn port(&self) -> P {
        self.port
    }

    /// Everything that was asked of the port, in order.
    pub open spec fn trace(&self) -> Seq<WireEvent> {
        self.port().wire()
    }

    /// Take over the port; the wake line is set to idle, and nothing else is done.
    pub fn new(port: P) -> (r: Self)
        ensures
            r.trace() == port.wire().push(WireEvent::WakeReleased),
    {
        let mut port = port;
        port.wake_high();
        PIC { port }
    }

    fn wake(&mut self)
        ensures
            final(self).trace() == old(self).trace() + seq![WireEvent::WakeAsserted, WireEvent::Delay(WAKE_SETTLE_US)],
    {
        self.port.wake_low();
        self.port.delay_us(WAKE_SETTLE_US);
        assert(self.trace() =~= old(self).trace() + seq![WireEvent::WakeAsserted, WireEvent::Delay(WAKE_SETTLE_US)]);
    }

    fn release(&mut self)
        ensures
            final(self).trace() == old(self).trace().push(WireEvent::WakeReleased),
    {
        self.port.wake_high();
    }

    fn set_register(&mut self, reg: u8, value: u8) -> (r: Result<(), BusError>)
        ensures
            final(self).trace() == old(self).trace() + register_write(reg, value, r),
            wake_bracketed(events_after(final(self).trace(), old(self).trace().len() as int)),
    {
        let ghost t0 = self.trace();
        self.wake();
        let bytes = [reg, value];
        assert(bytes@ =~= seq![reg, value]);
        let r = self.port.write(ADDR, &bytes);
        self.release();
        proof {
            let body = seq![WireEvent::Write(ADDR, seq![reg, value], r)];
            assert(self.trace() =~= t0 + transaction(body));
            assert(is_bus_event(body[0]));
            lemma_transaction_bracketed(body);
            assert(events_after(self.trace(), t0.len() as int) =~= transaction(body));
        }
        r
    }

    /// Enable or disable (power, and connect to SPI) the inertial sensor.
    pub fn set_imu(&mut self, enable: bool) -> (r: Result<(), BusError>)
        ensures
            final(self).trace() == old(self).trace() + register_write(REG_IMU, enable as u8, r),
            wake_bracketed(events_after(final(self).trace(), old(self).trace().len() as int)),
    {
        self.set_register(REG_IMU, enable as u8)
    }

    /// Enable or disable (power, and connect to I2C) the environmental sensor group; the PIC
    /// controls it through the same register as the inertial sensor.
    pub fn set_env_sensor(&mut self, enable: bool) -> (r: Result<(), BusError>)
        ensures
            final(self).trace() == old(self).trace() + register_write(REG_IMU, enable as u8, r),
            wake_bracketed(events_after(final(self).trace(), old(self).trace().len() as int)),
    {
        self.set_register(REG_IMU, enable as u8)
    }

    /// Enable or disable the microphone.
    pub fn set_mic(&mut self, enable: bool) -> (r: Result<(), BusError>)
        ensures
            final(self).trace() == old(self).trace() + register_write(REG_MIC, enable as u8, r),
            wake_bracketed(events_after(final(self).trace(), old(self).trace().len() as int)),
    {
        self.set_register(REG_MIC, enable as u8)
    }

    /// Enable or disable the indoor air quality sensor, and set its wake state.
    pub fn set_ccs(&mut self, enable: bool, wake: bool) -> (r: Result<(), BusError>)
        ensures
            final(self).trace() == old(self).trace() + register_write(
                REG_CCS,
                spec_ccs_bits(enable, wake),
                r,
            ),
            wake_bracketed(events_after(final(self).trace(), old(self).trace().len() as int)),
    {
        let state = ccs_bits(enable, wake);
        self.set_register(REG_CCS, state)
    }

    /// Power the four RGB LEDs on or off; their colour is set by the main controller.
    pub fn set_leds(&mut self, led0: bool, led1: bool, led2: bool, led3: bool) -> (r: Result<
        (),
        BusError,
    >)
        ensures
            final(self).trace() == old(self).trace() + register_write(
                REG_LEDS,
                spec_led_bits(led0, led1, led2, led3),
                r,
            ),
            wake_bracketed(events_after(final(self).trace(), old(self).trace().len() as int)),
    {
        let led_config = led_bits(led0, led1, led2, led3);
        self.set_register(REG_LEDS, led_config)
    }

    /// Select which interrupts are active.
    pub fn set_int(&mut self, enable: InterruptSet) -> (r: Result<(), BusError>)
        ensures
            final(self).trace() == old(self).trace() + register_write(
                REG_INT_SET,
                enable.spec_bits(),
                r,
            ),
            wake_bracketed(events_after(final(self).trace(), old(self).trace().len() as int)),
    {
        self.set_register(REG_INT_SET, enable.to_bits())
    }

    /// Clear the given pending interrupts.
    pub fn clear_int(&mut self, clear: InterruptSet) -> (r: Result<(), BusError>)
        ensures
            final(self).trace() == old(self).trace() + register_write(
                REG_INT_CLEAR,
                clear.spec_bits(),
                r,
            ),
            wake_bracketed(events_after(final(self).trace(), old(self).trace().len() as int)),
    {
        self.set_register(REG_INT_CLEAR, clear.to_bits())
    }

    /// Configure how the PIC drives its interrupt line. A periodic mode with a period of 8 or
    /// more is refused before the bus is touched.
    pub fn set_int_mode(&mut self, mode: &InterruptConfiguration) -> (r: Result<(), PicError>)
        ensures
            mode.spec_bits() is None ==> r == Err::<(), PicError>(
                PicError::Config(ConfigError::InvalidPeriod(mode->Periodic_0)),
            ) && final(self).trace() == old(self).trace(),
            mode.spec_bits() matches Some(b) ==> exists|w: Result<(), BusError>|
                #[trigger] register_write(REG_INT_MODE, b, w) == events_after(
                    final(self).trace(),
                    old(self).trace().len() as int,
                ) && final(self).trace() == old(self).trace() + register_write(REG_INT_MODE, b, w)
                    && r == bus_result(w),
    {
        match mode.to_bits() {
            Err(e) => Err(PicError::Config(e)),
            Ok(b) => {
                let ghost t0 = self.trace();
                let w = self.set_register(REG_INT_MODE, b);
                assert(events_after(self.trace(), t0.len() as int) =~= register_write(REG_INT_MODE, b, w));
                match w {
                    Ok(()) => Ok(()),
                    Err(e) => Err(PicError::Bus(e)),
                }
            },
        }
    }

    /// Read `n` registers from `base` on, one write of the register number and one single-byte
    /// read each: the PIC cannot read several registers in one transaction.
    fn read_sequence(&mut self, base: u8, n: u8) -> (r: Result<Vec<u8>, BusError>)
        requires
            base + n <= 256,
        ensures
            r matches Ok(v) ==> v@.len() == n && final(self).trace() == old(self).trace()
                + transaction(read_steps(base, v@)),
            r matches Err(e) ==> read_failed(old(self).trace(), final(self).trace(), base, n as nat, e),
            wake_bracketed(events_after(final(self).trace(), old(self).trace().len() as int)),
    {
        let ghost t_old = self.trace();
        self.wake();
        let ghost t0 = self.trace();
        let mut out: Vec<u8> = Vec::new();
        let mut i: u8 = 0;
        let mut failure: Option<BusError> = None;
        let ghost mut write_failed: bool = false;
        while i < n && failure.is_none()
            invariant
                i <= n,
                base + n <= 256,
                out@.len() == i,
                failure is None ==> self.trace() == t0 + read_steps(base, out@),
                failure matches Some(e) ==> i < n && self.trace() == t0 + read_steps(base, out@)
                    + read_failure((base + i) as u8, e, write_failed),
            decreases n - i + (if failure is None { 1int } else { 0int }),
        {
            let reg = base + i;
            let bytes = [reg];
            assert(bytes@ =~= seq![reg]);
            let w = self.port.write(ADDR, &bytes);
            match w {
                Err(e) => {
                    failure = Some(e);
                    proof {
                        write_failed = true;
                        assert(self.trace() =~= t0 + read_steps(base, out@) + read_failure(reg, e, true));
                    }
                },
                Ok(()) => {
                    assert(w->Ok_0 == ());
                    let rd = self.port.read_byte(ADDR);
                    proof {
                        assert(self.trace() =~= (t0 + read_steps(base, out@)) + seq![
                            WireEvent::Write(ADDR, seq![reg], Ok(())),
                            WireEvent::Read(ADDR, rd),
                        ]);
                    }
                    match rd {
                        Err(e) => {
                            failure = Some(e);
                            proof {
                                write_failed = false;
                                assert(self.trace() =~= t0 + read_steps(base, out@) + read_failure(reg, e, false));
                            }
                        },
                        Ok(b) => {
                            let ghost before = out@;
                            out.push(b);
                            proof {
                                assert(out@.drop_last() =~= before);
                                assert(self.trace() =~= t0 + read_steps(base, out@));
                            }
                            i = i + 1;
                        },
                    }
                },
            }
        }
        self.release();
        proof {
            assert(t0 =~= t_old + seq![WireEvent::WakeAsserted, WireEvent::Delay(WAKE_SETTLE_US)]);
        }
        match failure {
            Some(e) => {
                proof {
                    let body = read_steps(base, out@) + read_failure((base + i) as u8, e, write_failed);
                    assert(self.trace() =~= t_old + transaction(body));
                    assert(read_failed_after(t_old, self.trace(), base, out@, n as nat, e, write_failed));
                    lemma_read_failure_bracketed(base, out@, e, write_failed);
                    assert(events_after(self.trace(), t_old.len() as int) =~= transaction(body));
                }
                Err(e)
            },
            None => {
                proof {
                    let body = read_steps(base, out@);
                    assert(self.trace() =~= t_old + transaction(body));
                    lemma_read_steps_bus_only(base, out@);
                    lemma_transaction_bracketed(body);
                    assert(events_after(self.trace(), t_old.len() as int) =~= transaction(body));
                }
                Ok(out)
            },
        }
    }

    /// Which interrupts are pending.
    pub fn pending_int(&mut self) -> (r: Result<InterruptSet, BusError>)
        ensures
            r matches Ok(s) ==> exists|b: u8|
                final(self).trace() == old(self).trace() + #[trigger] transaction(
                    read_one(REG_INT_PENDING, b),
                ) && s == InterruptSet::spec_from_bits(b),
            r matches Err(e) ==> read_failed(old(self).trace(), final(self).trace(), REG_INT_PENDING, 1, e),
            wake_bracketed(events_after(final(self).trace(), old(self).trace().len() as int)),
    {
        match self.read_sequence(REG_INT_PENDING, 1) {
            Ok(v) => {
                proof {
                    assert(v@.drop_last() =~= Seq::<u8>::empty());
                    assert(read_steps(REG_INT_PENDING, v@.drop_last()) =~= Seq::empty());
                    assert(read_steps(REG_INT_PENDING, v@) =~= read_one(REG_INT_PENDING, v@[0]));
                }
                Ok(InterruptSet::from_bits(v[0]))
            },
            Err(e) => Err(e),
        }
    }

    /// The (major, minor, patch) version of the PIC's firmware.
    pub fn read_firmware_version(&mut self) -> (r: Result<[u8; 3], BusError>)
        ensures
            r matches Ok(v) ==> final(self).trace() == old(self).trace() + transaction(
                read_steps(REG_ID_BASE, v@),
            ),
            r matches Err(e) ==> read_failed(old(self).trace(), final(self).trace(), REG_ID_BASE, 3, e),
            wake_bracketed(events_after(final(self).trace(), old(self).trace().len() as int)),
    {
        match self.read_sequence(REG_ID_BASE, 3) {
            Ok(v) => {
                let a = [v[0], v[1], v[2]];
                assert(a@ =~= v@);
                Ok(a)
            },
            Err(e) => Err(e),
        }
    }

    /// The PIC's 4-byte device identification.
    pub fn read_device_id(&mut self) -> (r: Result<[u8; 4], BusError>)
        ensures
            r matches Ok(v) ==> final(self).trace() == old(self).trace() + transaction(
                read_steps(REG_ID_BASE, v@),
            ),
            r matches Err(e) ==> read_failed(old(self).trace(), final(self).trace(), REG_ID_BASE, 4, e),
            wake_bracketed(events_after(final(self).trace(), old(self).trace().len() as int)),
    {
        match self.read_sequence(REG_ID_BASE, 4) {
            Ok(v) => {
                let a = [v[0], v[1], v[2], v[3]];
                assert(a@ =~= v@);
                Ok(a)
            },
            Err(e) => Err(e),
        }
    }

    /// Give the port back, for another user of the bus; no call is made on it.
    pub fn destroy(self) -> (r: P)
        ensures
            r == self.port(),
    {
        self.port
    }
}

} // verus!

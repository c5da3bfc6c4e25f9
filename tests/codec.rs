use thunderboard_sltb001a::pic::{
    ccs_bits, led_bits, ConfigError, InterruptConfiguration, InterruptSet,
};

#[test]
fn interrupt_set_round_trips_for_all_combinations() {
    for n in 0..8u8 {
        let set = InterruptSet { ccs: n & 1 != 0, imu: n & 2 != 0, uv: n & 4 != 0 };
        let byte = set.to_bits();
        assert_eq!(byte, n);
        assert_eq!(InterruptSet::from_bits(byte), set);
    }
}

#[test]
fn interrupt_set_bit_positions() {
    assert_eq!(InterruptSet { ccs: true, imu: false, uv: false }.to_bits(), 0x01);
    assert_eq!(InterruptSet { ccs: false, imu: true, uv: false }.to_bits(), 0x02);
    assert_eq!(InterruptSet { ccs: false, imu: false, uv: true }.to_bits(), 0x04);
}

#[test]
fn interrupt_set_decoding_ignores_high_bits() {
    assert_eq!(
        InterruptSet::from_bits(0xfa),
        InterruptSet { ccs: false, imu: true, uv: false }
    );
    assert_eq!(
        InterruptSet::from_bits(0xff),
        InterruptSet { ccs: true, imu: true, uv: true }
    );
}

#[test]
fn led_bits_for_all_combinations() {
    for n in 0..16u8 {
        let l = [n & 1 != 0, n & 2 != 0, n & 4 != 0, n & 8 != 0];
        let b = led_bits(l[0], l[1], l[2], l[3]);
        assert_eq!(b & 0x01 != 0, l[0] || l[1] || l[2] || l[3]);
        assert_eq!(b & 0x80 != 0, l[0]);
        assert_eq!(b & 0x40 != 0, l[1]);
        assert_eq!(b & 0x20 != 0, l[2]);
        assert_eq!(b & 0x10 != 0, l[3]);
        assert_eq!(b & 0x0e, 0);
    }
}

#[test]
fn led_bits_exact_values() {
    assert_eq!(led_bits(false, false, false, false), 0x00);
    assert_eq!(led_bits(true, false, false, false), 0x81);
    assert_eq!(led_bits(false, false, false, true), 0x11);
    assert_eq!(led_bits(true, true, true, true), 0xf1);
}

#[test]
fn ccs_bits_values() {
    assert_eq!(ccs_bits(false, false), 0);
    assert_eq!(ccs_bits(true, false), 1);
    assert_eq!(ccs_bits(false, true), 2);
    assert_eq!(ccs_bits(true, true), 3);
}

#[test]
fn interrupt_configuration_bits() {
    assert_eq!(InterruptConfiguration::SinglePulse.to_bits(), Ok(0x00));
    assert_eq!(InterruptConfiguration::Latched.to_bits(), Ok(0x10));
    for n in 0..8u8 {
        assert_eq!(InterruptConfiguration::Periodic(n).to_bits(), Ok(n | 0x8));
    }
}

#[test]
fn interrupt_configuration_rejects_long_periods() {
    for n in [8u8, 9, 0x10, 0xff] {
        assert_eq!(
            InterruptConfiguration::Periodic(n).to_bits(),
            Err(ConfigError::InvalidPeriod(n))
        );
    }
}

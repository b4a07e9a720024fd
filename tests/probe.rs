use std::collections::HashMap;

use ufire_ise::bus::BusStep;
use ufire_ise::config::{DUAL_POINT_BIT, TEMP_COMPENSATION_BIT};
use ufire_ise::ieee::{
    bits_ge, bits_gt, bits_is_finite, bits_is_infinite, bits_is_nan, bits_le, byte_to_float_bits,
    round_to_i32,
    EIGHT_BITS, FIFTEEN_BITS, FOURTEEN_BITS, MINUS_ONE_BITS, NAN_BITS, ONE_BITS, SIX_BITS,
    THIRTY_FIVE_BITS,
};
use ufire_ise::ph::{distance_from_25, distance_from_7};
use ufire_ise::{
    correction_is_negative, decode_float_bits, encode_float_bits, normalized_mv,
    temperature_correction, validated_ph, Correction, IseProbe,
};

/// A board that stores what is written to it, with the firmware's EEPROM copy.
struct Board {
    regs: [u8; 256],
    pointer: u8,
    eeprom: HashMap<[u8; 4], [u8; 4]>,
    waited_ms: u64,
}

impl Board {
    fn new() -> Board {
        Board { regs: [0x55; 256], pointer: 0, eeprom: HashMap::new(), waited_ms: 0 }
    }

    fn four(&self, r: usize) -> [u8; 4] {
        [self.regs[r], self.regs[r + 1], self.regs[r + 2], self.regs[r + 3]]
    }

    fn run(&mut self, steps: &[BusStep]) -> Vec<u8> {
        let mut out = Vec::new();
        for s in steps {
            match *s {
                BusStep::Select(r) => self.pointer = r,
                BusStep::WriteData(38, 4) => {
                    self.eeprom.insert(self.four(29), self.four(33));
                }
                BusStep::WriteData(38, 2) if self.eeprom.contains_key(&self.four(29)) => {
                    let v = self.eeprom[&self.four(29)];
                    self.regs[33..37].copy_from_slice(&v);
                }
                BusStep::WriteData(r, v) => self.regs[r as usize] = v,
                BusStep::ReadByte => {
                    out.push(self.regs[self.pointer as usize]);
                    self.pointer = self.pointer.wrapping_add(1);
                }
                BusStep::Wait(ms) => self.waited_ms += ms as u64,
            }
        }
        out
    }
}

fn float_of(reads: &[u8]) -> f32 {
    f32::from_bits(IseProbe::float_from_reads(&reads.to_vec()))
}

fn write_float(r: u8, v: f32) -> Vec<BusStep> {
    let b = v.to_le_bytes();
    vec![
        BusStep::Select(r),
        BusStep::Wait(10),
        BusStep::WriteData(r, b[0]),
        BusStep::Wait(10),
        BusStep::WriteData(r + 1, b[1]),
        BusStep::Wait(10),
        BusStep::WriteData(r + 2, b[2]),
        BusStep::Wait(10),
        BusStep::WriteData(r + 3, b[3]),
        BusStep::Wait(10),
    ]
}

fn read_float(r: u8) -> Vec<BusStep> {
    let mut v = vec![BusStep::Select(r), BusStep::Wait(10)];
    for _ in 0..4 {
        v.push(BusStep::ReadByte);
        v.push(BusStep::Wait(10));
    }
    v
}

#[test]
fn one_goes_out_little_endian() {
    assert_eq!(encode_float_bits(1.0f32.to_bits()), [0x00, 0x00, 0x80, 0x3f]);
    assert_eq!(f32::from_bits(decode_float_bits(&[0x00, 0x00, 0x80, 0x3f])), 1.0);
}

#[test]
fn codec_round_trips() {
    for v in [0.0f32, -0.0, 1.0, -1.0, 295.0, 59.2, f32::NAN, f32::INFINITY, f32::MIN_POSITIVE] {
        let bytes = encode_float_bits(v.to_bits());
        assert_eq!(bytes, v.to_le_bytes());
        assert_eq!(decode_float_bits(&bytes), v.to_bits());
    }
    assert_eq!(decode_float_bits(&[0x01, 0x02, 0x03, 0x04]), 0x0403_0201);
}

#[test]
fn every_byte_converts_like_a_cast() {
    for n in 0..=255u8 {
        assert_eq!(byte_to_float_bits(n), (n as f32).to_bits(), "byte {}", n);
    }
}

#[test]
fn named_patterns_are_their_floats() {
    assert_eq!(ONE_BITS, 1.0f32.to_bits());
    assert_eq!(SIX_BITS, 6.0f32.to_bits());
    assert_eq!(EIGHT_BITS, 8.0f32.to_bits());
    assert_eq!(FOURTEEN_BITS, 14.0f32.to_bits());
    assert_eq!(FIFTEEN_BITS, 15.0f32.to_bits());
    assert_eq!(THIRTY_FIVE_BITS, 35.0f32.to_bits());
    assert_eq!(MINUS_ONE_BITS, (-1.0f32).to_bits());
    assert_eq!(NAN_BITS, f32::NAN.to_bits());
}

#[test]
fn classification_matches_std() {
    let samples = [
        0.0f32, -0.0, 1.5, -7.25, 1e30, -1e-30, f32::MAX, f32::MIN, f32::MIN_POSITIVE, 1e-45,
        f32::NAN, -f32::NAN, f32::INFINITY, f32::NEG_INFINITY, 14.0, 8.0, 35.0,
    ];
    for a in samples {
        assert_eq!(bits_is_nan(a.to_bits()), a.is_nan());
        assert_eq!(bits_is_infinite(a.to_bits()), a.is_infinite());
        assert_eq!(bits_is_finite(a.to_bits()), a.is_finite());
        for c in samples {
            assert_eq!(bits_ge(a.to_bits(), c.to_bits()), a >= c, "{} >= {}", a, c);
            assert_eq!(bits_le(a.to_bits(), c.to_bits()), a <= c, "{} <= {}", a, c);
            assert_eq!(bits_gt(a.to_bits(), c.to_bits()), a > c, "{} > {}", a, c);
        }
    }
}

#[test]
fn rounding_matches_std() {
    let mut samples = vec![
        0.0f32, -0.0, 0.5, -0.5, 1.5, 2.5, -2.5, 0.49999997, -0.49999997, 7.4999995, 8.5, 5.5,
        39.6, -6.4, 1e-45, 1e-38, 8388607.5, 16777215.0, 2147483520.0, 2147483648.0, -2147483648.0,
        -2147483904.0, 1e30, -1e30, f32::MAX, f32::MIN, f32::NAN, f32::INFINITY, f32::NEG_INFINITY,
    ];
    let mut x = 1.0e-3f32;
    while x < 1.0e12 {
        samples.push(x);
        samples.push(-x);
        samples.push(x + 0.5);
        x *= 1.37;
    }
    for a in samples {
        assert_eq!(round_to_i32(a.to_bits()), a.round() as i32, "{}", a);
    }
    for bits in (0u32..=u32::MAX).step_by(65_537) {
        let a = f32::from_bits(bits);
        assert_eq!(round_to_i32(bits), a.round() as i32, "{:#x}", bits);
    }
}

#[test]
fn ph_outside_range_is_invalid() {
    let minus_one = (-1.0f32).to_bits();
    for bad in [0.0f32, -0.0, -3.0, 14.0001, 15.0, f32::NAN, f32::INFINITY, f32::NEG_INFINITY] {
        assert_eq!(validated_ph(bad.to_bits()), minus_one, "{}", bad);
    }
    for good in [14.0f32, 7.0, 0.001, 1e-40] {
        assert_eq!(validated_ph(good.to_bits()), good.to_bits(), "{}", good);
    }
}

#[test]
fn mv_nan_and_infinities_become_nan() {
    assert!(f32::from_bits(normalized_mv(f32::INFINITY.to_bits())).is_nan());
    assert!(f32::from_bits(normalized_mv(f32::NEG_INFINITY.to_bits())).is_nan());
    assert_eq!(normalized_mv((-f32::NAN).to_bits()), f32::NAN.to_bits());
    assert_eq!(normalized_mv(123.5f32.to_bits()), 123.5f32.to_bits());
}

#[test]
fn correction_direction() {
    // alkaline and hot
    assert!(correction_is_negative(8.5f32.to_bits(), 40.0f32.to_bits()));
    assert_eq!(
        temperature_correction(8.5f32.to_bits(), 40.0f32.to_bits()),
        Correction::Offset { steps: 2, negative: true }
    );
    // acidic and cold
    assert!(correction_is_negative(5.5f32.to_bits(), 10.0f32.to_bits()));
    assert_eq!(
        temperature_correction(5.5f32.to_bits(), 10.0f32.to_bits()),
        Correction::Offset { steps: 1, negative: true }
    );
    // neutral at room temperature
    assert_eq!(
        temperature_correction(7.0f32.to_bits(), 25.0f32.to_bits()),
        Correction::Offset { steps: 0, negative: false }
    );
    // alkaline and cold, acidic and hot: positive
    assert!(!correction_is_negative(9.0f32.to_bits(), 5.0f32.to_bits()));
    assert!(!correction_is_negative(4.0f32.to_bits(), 50.0f32.to_bits()));
    assert_eq!(
        temperature_correction(4.0f32.to_bits(), 50.0f32.to_bits()),
        Correction::Offset { steps: 6, negative: false }
    );
    // edges of the rule are inclusive
    assert!(correction_is_negative(8.0f32.to_bits(), 35.0f32.to_bits()));
    assert!(correction_is_negative(6.0f32.to_bits(), 15.0f32.to_bits()));
    assert!(!correction_is_negative(f32::NAN.to_bits(), 40.0f32.to_bits()));
}

#[test]
fn correction_of_non_finite_is_undefined() {
    assert_eq!(
        temperature_correction(f32::NAN.to_bits(), 25.0f32.to_bits()),
        Correction::Undefined
    );
    assert_eq!(
        temperature_correction(7.0f32.to_bits(), f32::INFINITY.to_bits()),
        Correction::Undefined
    );
    // a huge temperature still gives no correction at neutral pH
    assert_eq!(
        temperature_correction(7.2f32.to_bits(), 1e20f32.to_bits()),
        Correction::Offset { steps: 0, negative: false }
    );
}

#[test]
fn distances() {
    assert_eq!(distance_from_7(7), 0);
    assert_eq!(distance_from_7(2), 5);
    assert_eq!(distance_from_7(12), 5);
    assert_eq!(distance_from_7(i32::MIN), 2_147_483_655);
    assert_eq!(distance_from_25(25), 0);
    assert_eq!(distance_from_25(34), 0);
    assert_eq!(distance_from_25(35), 1);
    assert_eq!(distance_from_25(-6), 3);
    assert_eq!(distance_from_25(i32::MIN), 214_748_367);
}

#[test]
fn measure_mv_program() {
    let p = IseProbe::new(0x3f);
    assert_eq!(p.address(), 0x3f);
    let mut expected = vec![BusStep::WriteData(38, 80), BusStep::Wait(1750)];
    expected.extend(read_float(1));
    assert_eq!(p.measure_mv(), expected);
    let mut board = Board::new();
    board.regs[1..5].copy_from_slice(&(-123.25f32).to_le_bytes());
    let reads = board.run(&p.measure_mv());
    assert_eq!(f32::from_bits(IseProbe::mv_from_reads(&reads)), -123.25);
    board.regs[1..5].copy_from_slice(&f32::INFINITY.to_le_bytes());
    let reads = board.run(&p.measure_mv());
    assert!(f32::from_bits(IseProbe::mv_from_reads(&reads)).is_nan());
}

#[test]
fn measure_ph_program_reads_mv_then_config() {
    let p = IseProbe::new(0x3f);
    let mut expected = p.measure_mv();
    expected.extend([BusStep::Select(37), BusStep::Wait(10), BusStep::ReadByte]);
    assert_eq!(p.measure_ph(), expected);
    let mut board = Board::new();
    board.regs[1..5].copy_from_slice(&59.2f32.to_le_bytes());
    board.regs[37] = 0b10;
    let reading = IseProbe::ph_reading_from_reads(&board.run(&p.measure_ph()));
    assert_eq!(f32::from_bits(reading.mv), 59.2);
    assert!(reading.compensate);
    board.regs[37] = 0b01;
    assert!(!IseProbe::ph_reading_from_reads(&board.run(&p.measure_ph())).compensate);
}

#[test]
fn measure_temp_program() {
    let p = IseProbe::new(0x3f);
    let mut expected = vec![BusStep::WriteData(38, 40), BusStep::Wait(750)];
    expected.extend(read_float(5));
    assert_eq!(p.measure_temp(), expected);
    assert_eq!(p.set_temp(20.2f32.to_bits()), write_float(5, 20.2));
}

#[test]
fn calibration_programs() {
    let p = IseProbe::new(0x3f);
    for (steps, opcode) in [
        (p.calibrate_single(500.0f32.to_bits()), 20u8),
        (p.calibrate_probe_low(500.0f32.to_bits()), 10),
        (p.calibrate_probe_high(500.0f32.to_bits()), 8),
    ] {
        let mut expected = write_float(29, 500.0);
        expected.extend([BusStep::WriteData(38, opcode), BusStep::Wait(1750)]);
        assert_eq!(steps, expected);
    }
}

#[test]
fn dual_point_values_read_back() {
    let p = IseProbe::new(0x3f);
    let mut board = Board::new();
    let steps = p.set_dual_point_calibration(
        50.0f32.to_bits(),
        500.0f32.to_bits(),
        34.0f32.to_bits(),
        553.0f32.to_bits(),
    );
    let mut expected = write_float(17, 50.0);
    expected.extend(write_float(13, 500.0));
    expected.extend(write_float(25, 34.0));
    expected.extend(write_float(21, 553.0));
    assert_eq!(steps, expected);
    board.run(&steps);
    assert_eq!(float_of(&board.run(&p.get_calibrate_low_reference())), 50.0);
    assert_eq!(float_of(&board.run(&p.get_calibrate_high_reference())), 500.0);
    assert_eq!(float_of(&board.run(&p.get_calibrate_low_reading())), 34.0);
    assert_eq!(float_of(&board.run(&p.get_calibrate_high_reading())), 553.0);
}

#[test]
fn reset_clears_all_five() {
    let p = IseProbe::new(0x3f);
    let mut board = Board::new();
    board.run(&p.set_dual_point_calibration(1, 2, 3, 4));
    board.regs[37] = 0b11;
    board.run(&p.reset());
    assert!(float_of(&board.run(&p.get_calibrate_offset())).is_nan());
    assert!(float_of(&board.run(&p.get_calibrate_low_reading())).is_nan());
    assert!(float_of(&board.run(&p.get_calibrate_high_reading())).is_nan());
    assert!(float_of(&board.run(&p.get_calibrate_low_reference())).is_nan());
    assert!(float_of(&board.run(&p.get_calibrate_high_reference())).is_nan());
    assert_eq!(board.regs[37], 0b11);
    assert_eq!(p.reset().len(), 50);
}

#[test]
fn eeprom_round_trip() {
    let p = IseProbe::new(0x3f);
    let mut board = Board::new();
    board.run(&p.write_eeprom(100, 295.0f32.to_bits()));
    board.run(&p.write_eeprom(7, (-1.5f32).to_bits()));
    assert_eq!(float_of(&board.run(&p.read_eeprom(100))), 295.0);
    assert_eq!(float_of(&board.run(&p.read_eeprom(7))), -1.5);
    board.run(&p.set_probe_potential(245.0f32.to_bits()));
    assert_eq!(float_of(&board.run(&p.get_probe_potential())), 245.0);
    assert_eq!(p.get_probe_potential(), p.read_eeprom(100));

    let mut expected = write_float(29, 100.0);
    expected.extend(write_float(33, 295.0));
    expected.extend([BusStep::WriteData(38, 4), BusStep::Wait(25)]);
    assert_eq!(p.write_eeprom(100, 295.0f32.to_bits()), expected);
    let mut expected = write_float(29, 100.0);
    expected.extend([BusStep::WriteData(38, 2), BusStep::Wait(25)]);
    expected.extend(read_float(33));
    assert_eq!(p.read_eeprom(100), expected);
}

#[test]
fn config_bits_round_trip() {
    let p = IseProbe::new(0x3f);
    let mut board = Board::new();
    board.regs[37] = 0b10;
    let config = board.run(&p.read_config_for_update());
    assert_eq!(config, vec![0b10]);
    board.run(&p.use_dual_point(config[0], true));
    let now = board.run(&p.using_dual_point())[0];
    assert_eq!(IseProbe::dual_point_flag(now), 1);
    assert_eq!(IseProbe::temperature_compensation_flag(now), 1);
    let config = board.run(&p.read_config_for_update())[0];
    board.run(&p.use_temperature_compensation(config, false));
    let now = board.run(&p.using_temperature_compensation())[0];
    assert_eq!(IseProbe::temperature_compensation_flag(now), 0);
    assert_eq!(IseProbe::dual_point_flag(now), 1);
    let config = board.run(&p.read_config_for_update())[0];
    board.run(&p.use_dual_point(config, false));
    assert_eq!(IseProbe::dual_point_flag(board.run(&p.using_dual_point())[0]), 0);
    assert_eq!(board.regs[37], 0);
    assert_eq!(DUAL_POINT_BIT, 0);
    assert_eq!(TEMP_COMPENSATION_BIT, 1);
    assert_eq!(
        p.use_temperature_compensation(0b1000_0001, true),
        vec![BusStep::WriteData(37, 0b1000_0011), BusStep::Wait(10)]
    );
    assert_eq!(
        p.read_config_for_update(),
        vec![BusStep::Select(37), BusStep::Wait(10), BusStep::ReadByte, BusStep::Wait(10)]
    );
}

#[test]
fn version_read_has_no_settle_after_select() {
    let p = IseProbe::new(0x3f);
    assert_eq!(p.get_version(), vec![BusStep::Select(0), BusStep::Wait(10), BusStep::ReadByte]);
    let mut board = Board::new();
    board.regs[0] = 0x1a;
    assert_eq!(board.run(&p.get_version()), vec![0x1a]);
}

#[test]
fn set_address_program() {
    let p = IseProbe::new(0x3f);
    let mut expected = write_float(29, 0x4f as f32);
    expected.push(BusStep::WriteData(38, 1));
    assert_eq!(p.set_i2c_address(0x4f), expected);
    assert_eq!(p.address(), 0x3f);
}

#[test]
fn waits_add_up() {
    let p = IseProbe::new(0x3f);
    let mut board = Board::new();
    board.run(&p.measure_mv());
    assert_eq!(board.waited_ms, 1750 + 10 + 4 * 10);
}

use vstd::prelude::*;
use crate::bus::{
    BusStep, SETTLE_MS, select_steps, write_float_steps, read_float_steps, trigger_steps,
    push_select, push_write_float, push_read_float, push_trigger,
};
use crate::codec::{le_value, decode_float_bits};
use crate::config::{config_flag, flag_of, with_flag, with_flag_spec, DUAL_POINT_BIT, TEMP_COMPENSATION_BIT};
use crate::ieee::{byte_to_float_bits, encodes_int, NAN_BITS};
use crate::ph::{normalized_mv, normalized_mv_spec};

verus! {

// Register map of the probe board.
pub const VERSION_REGISTER: u8 = 0;
pub const MV_REGISTER: u8 = 1;
pub const TEMP_REGISTER: u8 = 5;
pub const CALIBRATE_SINGLE_REGISTER: u8 = 9;
pub const CALIBRATE_REFHIGH_REGISTER: u8 = 13;
pub const CALIBRATE_REFLOW_REGISTER: u8 = 17;
pub const CALIBRATE_READHIGH_REGISTER: u8 = 21;
pub const CALIBRATE_READLOW_REGISTER: u8 = 25;
pub const SOLUTION_REGISTER: u8 = 29;
pub const BUFFER_REGISTER: u8 = 33;
pub const CONFIG_REGISTER: u8 = 37;

// Task opcodes, written to the control register.
pub const MEASURE_MV: u8 = 80;
pub const MEASURE_TEMP: u8 = 40;
pub const CALIBRATE_SINGLE: u8 = 20;
pub const CALIBRATE_LOW: u8 = 10;
pub const CALIBRATE_HIGH: u8 = 8;
pub const MEMORY_WRITE: u8 = 4;
pub const MEMORY_READ: u8 = 2;
pub const CHANGE_I2C_ADDRESS: u8 = 1;

// How long the device takes over a task, in milliseconds.
pub const MV_MEASURE_MS: u32 = 1750;
pub const TEMP_MEASURE_MS: u32 = 750;
pub const MEMORY_MS: u32 = 25;

/// The EEPROM slot that holds the probe potential.
pub const POTENTIAL_ADDRESS: u8 = 100;

pub open spec fn measure_mv_steps() -> Seq<BusStep> {
    trigger_steps(MEASURE_MV, MV_MEASURE_MS) + read_float_steps(MV_REGISTER)
}

pub open spec fn read_config_steps() -> Seq<BusStep> {
    select_steps(CONFIG_REGISTER) + seq![BusStep::ReadByte]
}

pub open spec fn measure_ph_steps() -> Seq<BusStep> {
    measure_mv_steps() + read_config_steps()
}

pub open spec fn measure_temp_steps() -> Seq<BusStep> {
    trigger_steps(MEASURE_TEMP, TEMP_MEASURE_MS) + read_float_steps(TEMP_REGISTER)
}

pub open spec fn calibrate_steps(opcode: u8, solution_mv: u32) -> Seq<BusStep> {
    write_float_steps(SOLUTION_REGISTER, solution_mv) + trigger_steps(opcode, MV_MEASURE_MS)
}

pub open spec fn dual_point_steps(ref_low: u32, ref_high: u32, read_low: u32, read_high: u32) -> Seq<
    BusStep,
> {
    write_float_steps(CALIBRATE_REFLOW_REGISTER, ref_low) + write_float_steps(
        CALIBRATE_REFHIGH_REGISTER,
        ref_high,
    ) + write_float_steps(CALIBRATE_READLOW_REGISTER, read_low) + write_float_steps(
        CALIBRATE_READHIGH_REGISTER,
        read_high,
    )
}

pub open spec fn reset_steps() -> Seq<BusStep> {
    dual_point_steps(NAN_BITS, NAN_BITS, NAN_BITS, NAN_BITS) + write_float_steps(
        CALIBRATE_SINGLE_REGISTER,
        NAN_BITS,
    )
}

pub open spec fn config_update_read_steps() -> Seq<BusStep> {
    read_config_steps() + seq![BusStep::Wait(SETTLE_MS)]
}

pub open spec fn config_write_steps(config: u8) -> Seq<BusStep> {
    seq![BusStep::WriteData(CONFIG_REGISTER, config), BusStep::Wait(SETTLE_MS)]
}

pub open spec fn version_steps() -> Seq<BusStep> {
    select_steps(VERSION_REGISTER) + seq![BusStep::ReadByte]
}

/// The float pattern that carries a one-byte argument (an address) to the device.
pub open spec fn byte_argument(n: u8, bits: u32) -> bool {
    encodes_int(bits, n as int)
}

pub open spec fn set_address_steps(address_bits: u32) -> Seq<BusStep> {
    write_float_steps(SOLUTION_REGISTER, address_bits) + seq![
        BusStep::WriteData(crate::bus::TASK_REGISTER, CHANGE_I2C_ADDRESS),
    ]
}

pub open spec fn read_eeprom_steps(address_bits: u32) -> Seq<BusStep> {
    write_float_steps(SOLUTION_REGISTER, address_bits) + trigger_steps(MEMORY_READ, MEMORY_MS)
        + read_float_steps(BUFFER_REGISTER)
}

pub open spec fn write_eeprom_steps(address_bits: u32, value: u32) -> Seq<BusStep> {
    write_float_steps(SOLUTION_REGISTER, address_bits) + write_float_steps(BUFFER_REGISTER, value)
        + trigger_steps(MEMORY_WRITE, MEMORY_MS)
}

/// What a millivolt measurement and a config read hand back for a pH reading.
#[derive(Clone, Copy, Debug, PartialEq, Eq, Structural)]
pub struct PhReading {
    /// The raw millivolt pattern.
    pub mv: u32,
    /// Whether the device has temperature compensation on.
    pub compensate: bool,
}

/// A session with one probe board at one bus address. Each operation returns
/// the bus steps that carry it out; the bytes that `ReadByte` steps return are
/// handed to the matching decoding function.
pub struct IseProbe {
    address: u16,
}

impl IseProbe {
    pub closed spec fn address_spec(&self) -> u16 {
        self.address
    }

    /// A session with the board at `address`.
    pub fn new(address: u16) -> (r: IseProbe)
        ensures
            r.address_spec() == address,
    {
        IseProbe { address }
    }

    /// The bus address of the board.
    pub fn address(&self) -> (r: u16)
        ensures
            r == self.address_spec(),
    {
        self.address
    }

    /// Start a millivolt measurement and read it; four bytes come back.
    pub fn measure_mv(&self) -> (r: Vec<BusStep>)
        ensures
            r@ == measure_mv_steps(),
    {
        let mut steps: Vec<BusStep> = Vec::new();
        push_trigger(&mut steps, MEASURE_MV, MV_MEASURE_MS);
        push_read_float(&mut steps, MV_REGISTER);
        assert(steps@ =~= measure_mv_steps());
        steps
    }

    /// The float pattern that four bytes of a float register carry.
    pub fn float_from_reads(reads: &Vec<u8>) -> (r: u32)
        requires
            reads@.len() == 4,
        ensures
            r as int == le_value(reads@),
    {
        let b: [u8; 4] = [reads[0], reads[1], reads[2], reads[3]];
        assert(b@ =~= reads@);
        decode_float_bits(&b)
    }

    /// The millivolt reading from the bytes of `measure_mv`: NaN when the device
    /// reports NaN or an infinity.
    pub fn mv_from_reads(reads: &Vec<u8>) -> (r: u32)
        requires
            reads@.len() == 4,
        ensures
            r == normalized_mv_spec(le_value(reads@) as u32),
    {
        normalized_mv(Self::float_from_reads(reads))
    }

    /// Start a millivolt measurement for a pH reading, then read the config
    /// byte; five bytes come back. When the reading asks for compensation,
    /// `measure_temp` follows.
    pub fn measure_ph(&self) -> (r: Vec<BusStep>)
        ensures
            r@ == measure_ph_steps(),
    {
        let mut steps = self.measure_mv();
        push_select(&mut steps, CONFIG_REGISTER);
        steps.push(BusStep::ReadByte);
        assert(steps@ =~= measure_ph_steps());
        steps
    }

    /// The raw millivolts and the compensation setting from the bytes of
    /// `measure_ph`.
    pub fn ph_reading_from_reads(reads: &Vec<u8>) -> (r: PhReading)
        requires
            reads@.len() == 5,
        ensures
            r.mv as int == le_value(reads@.subrange(0, 4)),
            r.compensate == (config_flag(reads@[4], TEMP_COMPENSATION_BIT) == 1),
    {
        let b: [u8; 4] = [reads[0], reads[1], reads[2], reads[3]];
        assert(b@ =~= reads@.subrange(0, 4));
        let mv = decode_float_bits(&b);
        let flag = flag_of(reads[4], TEMP_COMPENSATION_BIT);
        PhReading { mv, compensate: flag == 1 }
    }

    /// Start a temperature measurement and read it; four bytes come back.
    pub fn measure_temp(&self) -> (r: Vec<BusStep>)
        ensures
            r@ == measure_temp_steps(),
    {
        let mut steps: Vec<BusStep> = Vec::new();
        push_trigger(&mut steps, MEASURE_TEMP, TEMP_MEASURE_MS);
        push_read_float(&mut steps, TEMP_REGISTER);
        assert(steps@ =~= measure_temp_steps());
        steps
    }

    /// Set the temperature that the device uses.
    pub fn set_temp(&self, temp_c: u32) -> (r: Vec<BusStep>)
        ensures
            r@ == write_float_steps(TEMP_REGISTER, temp_c),
    {
        let mut steps: Vec<BusStep> = Vec::new();
        push_write_float(&mut steps, TEMP_REGISTER, temp_c);
        assert(steps@ =~= write_float_steps(TEMP_REGISTER, temp_c));
        steps
    }

    fn calibrate(opcode: u8, solution_mv: u32) -> (r: Vec<BusStep>)
        ensures
            r@ == calibrate_steps(opcode, solution_mv),
    {
        let mut steps: Vec<BusStep> = Vec::new();
        push_write_float(&mut steps, SOLUTION_REGISTER, solution_mv);
        push_trigger(&mut steps, opcode, MV_MEASURE_MS);
        assert(steps@ =~= calibrate_steps(opcode, solution_mv));
        steps
    }

    /// Single-point calibration against a solution of `solution_mv` millivolts.
    pub fn calibrate_single(&self, solution_mv: u32) -> (r: Vec<BusStep>)
        ensures
            r@ == calibrate_steps(CALIBRATE_SINGLE, solution_mv),
    {
        Self::calibrate(CALIBRATE_SINGLE, solution_mv)
    }

    /// Dual-point calibration of the low point.
    pub fn calibrate_probe_low(&self, solution_mv: u32) -> (r: Vec<BusStep>)
        ensures
            r@ == calibrate_steps(CALIBRATE_LOW, solution_mv),
    {
        Self::calibrate(CALIBRATE_LOW, solution_mv)
    }

    /// Dual-point calibration of the high point.
    pub fn calibrate_probe_high(&self, solution_mv: u32) -> (r: Vec<BusStep>)
        ensures
            r@ == calibrate_steps(CALIBRATE_HIGH, solution_mv),
    {
        Self::calibrate(CALIBRATE_HIGH, solution_mv)
    }

    /// Write all four dual-point calibration values directly.
    pub fn set_dual_point_calibration(
        &self,
        ref_low: u32,
        ref_high: u32,
        read_low: u32,
        read_high: u32,
    ) -> (r: Vec<BusStep>)
        ensures
            r@ == dual_point_steps(ref_low, ref_high, read_low, read_high),
    {
        let mut steps: Vec<BusStep> = Vec::new();
        push_write_float(&mut steps, CALIBRATE_REFLOW_REGISTER, ref_low);
        push_write_float(&mut steps, CALIBRATE_REFHIGH_REGISTER, ref_high);
        push_write_float(&mut steps, CALIBRATE_READLOW_REGISTER, read_low);
        push_write_float(&mut steps, CALIBRATE_READHIGH_REGISTER, read_high);
        assert(steps@ =~= dual_point_steps(ref_low, ref_high, read_low, read_high));
        steps
    }

    fn read_float(register: u8) -> (r: Vec<BusStep>)
        ensures
            r@ == read_float_steps(register),
    {
        let mut steps: Vec<BusStep> = Vec::new();
        push_read_float(&mut steps, register);
        assert(steps@ =~= read_float_steps(register));
        steps
    }

    /// Read the single-point offset; four bytes come back.
    pub fn get_calibrate_offset(&self) -> (r: Vec<BusStep>)
        ensures
            r@ == read_float_steps(CALIBRATE_SINGLE_REGISTER),
    {
        Self::read_float(CALIBRATE_SINGLE_REGISTER)
    }

    /// Read the dual-point high reference; four bytes come back.
    pub fn get_calibrate_high_reference(&self) -> (r: Vec<BusStep>)
        ensures
            r@ == read_float_steps(CALIBRATE_REFHIGH_REGISTER),
    {
        Self::read_float(CALIBRATE_REFHIGH_REGISTER)
    }

    /// Read the dual-point high reading; four bytes come back.
    pub fn get_calibrate_high_reading(&self) -> (r: Vec<BusStep>)
        ensures
            r@ == read_float_steps(CALIBRATE_READHIGH_REGISTER),
    {
        Self::read_float(CALIBRATE_READHIGH_REGISTER)
    }

    /// Read the dual-point low reference; four bytes come back.
    pub fn get_calibrate_low_reference(&self) -> (r: Vec<BusStep>)
        ensures
            r@ == read_float_steps(CALIBRATE_REFLOW_REGISTER),
    {
        Self::read_float(CALIBRATE_REFLOW_REGISTER)
    }

    /// Read the dual-point low reading; four bytes come back.
    pub fn get_calibrate_low_reading(&self) -> (r: Vec<BusStep>)
        ensures
            r@ == read_float_steps(CALIBRATE_READLOW_REGISTER),
    {
        Self::read_float(CALIBRATE_READLOW_REGISTER)
    }

    /// Read the config byte ahead of changing one of its bits; one byte comes
    /// back, which `use_temperature_compensation` or `use_dual_point` takes.
    pub fn read_config_for_update(&self) -> (r: Vec<BusStep>)
        ensures
            r@ == config_update_read_steps(),
    {
        let mut steps: Vec<BusStep> = Vec::new();
        push_select(&mut steps, CONFIG_REGISTER);
        steps.push(BusStep::ReadByte);
        steps.push(BusStep::Wait(SETTLE_MS));
        assert(steps@ =~= config_update_read_steps());
        steps
    }

    /// Write back the config byte `config` (as read) with temperature
    /// compensation turned on or off.
    pub fn use_temperature_compensation(&self, config: u8, on: bool) -> (r: Vec<BusStep>)
        ensures
            r@ == config_write_steps(with_flag_spec(config, TEMP_COMPENSATION_BIT, on)),
    {
        Self::write_config(with_flag(config, TEMP_COMPENSATION_BIT, on))
    }

    /// Write back the config byte `config` (as read) with dual-point
    /// calibration turned on or off.
    pub fn use_dual_point(&self, config: u8, on: bool) -> (r: Vec<BusStep>)
        ensures
            r@ == config_write_steps(with_flag_spec(config, DUAL_POINT_BIT, on)),
    {
        Self::write_config(with_flag(config, DUAL_POINT_BIT, on))
    }

    fn write_config(config: u8) -> (r: Vec<BusStep>)
        ensures
            r@ == config_write_steps(config),
    {
        let mut steps: Vec<BusStep> = Vec::new();
        steps.push(BusStep::WriteData(CONFIG_REGISTER, config));
        steps.push(BusStep::Wait(SETTLE_MS));
        assert(steps@ =~= config_write_steps(config));
        steps
    }

    /// Read the firmware version; one byte comes back, which is the version.
    /// No settle delay comes between selecting the register and reading it.
    pub fn get_version(&self) -> (r: Vec<BusStep>)
        ensures
            r@ == version_steps(),
    {
        let mut steps: Vec<BusStep> = Vec::new();
        push_select(&mut steps, VERSION_REGISTER);
        steps.push(BusStep::ReadByte);
        assert(steps@ =~= version_steps());
        steps
    }

    /// Clear all five calibration values to the NaN marker.
    pub fn reset(&self) -> (r: Vec<BusStep>)
        ensures
            r@ == reset_steps(),
    {
        let mut steps = self.set_dual_point_calibration(NAN_BITS, NAN_BITS, NAN_BITS, NAN_BITS);
        push_write_float(&mut steps, CALIBRATE_SINGLE_REGISTER, NAN_BITS);
        assert(steps@ =~= reset_steps());
        steps
    }

    /// Read the config byte; one byte comes back, for
    /// `temperature_compensation_flag`.
    pub fn using_temperature_compensation(&self) -> (r: Vec<BusStep>)
        ensures
            r@ == read_config_steps(),
    {
        let mut steps: Vec<BusStep> = Vec::new();
        push_select(&mut steps, CONFIG_REGISTER);
        steps.push(BusStep::ReadByte);
        assert(steps@ =~= read_config_steps());
        steps
    }

    /// Read the config byte; one byte comes back, for `dual_point_flag`.
    pub fn using_dual_point(&self) -> (r: Vec<BusStep>)
        ensures
            r@ == read_config_steps(),
    {
        self.using_temperature_compensation()
    }

    /// 1 when the config byte has temperature compensation on, else 0.
    pub fn temperature_compensation_flag(config: u8) -> (r: u8)
        ensures
            r == config_flag(config, TEMP_COMPENSATION_BIT),
            r <= 1,
    {
        flag_of(config, TEMP_COMPENSATION_BIT)
    }

    /// 1 when the config byte has dual-point calibration on, else 0.
    pub fn dual_point_flag(config: u8) -> (r: u8)
        ensures
            r == config_flag(config, DUAL_POINT_BIT),
            r <= 1,
    {
        flag_of(config, DUAL_POINT_BIT)
    }

    /// Move the board to bus address `i2c_address`. This session stays bound to
    /// the old address; talk to the board at the new one through a new session.
    pub fn set_i2c_address(&self, i2c_address: u8) -> (r: Vec<BusStep>)
        ensures
            exists|a: u32| byte_argument(i2c_address, a) && r@ == set_address_steps(a),
    {
        let a = byte_to_float_bits(i2c_address);
        let mut steps: Vec<BusStep> = Vec::new();
        push_write_float(&mut steps, SOLUTION_REGISTER, a);
        steps.push(BusStep::WriteData(crate::bus::TASK_REGISTER, CHANGE_I2C_ADDRESS));
        assert(steps@ =~= set_address_steps(a));
        steps
    }

    /// Read the float in EEPROM slot `address`; four bytes come back.
    pub fn read_eeprom(&self, address: u8) -> (r: Vec<BusStep>)
        ensures
            exists|a: u32| byte_argument(address, a) && r@ == read_eeprom_steps(a),
    {
        let a = byte_to_float_bits(address);
        let mut steps: Vec<BusStep> = Vec::new();
        push_write_float(&mut steps, SOLUTION_REGISTER, a);
        push_trigger(&mut steps, MEMORY_READ, MEMORY_MS);
        push_read_float(&mut steps, BUFFER_REGISTER);
        assert(steps@ =~= read_eeprom_steps(a));
        steps
    }

    /// Store the float `value` in EEPROM slot `address`.
    pub fn write_eeprom(&self, address: u8, value: u32) -> (r: Vec<BusStep>)
        ensures
            exists|a: u32| byte_argument(address, a) && r@ == write_eeprom_steps(a, value),
    {
        let a = byte_to_float_bits(address);
        let mut steps: Vec<BusStep> = Vec::new();
        push_write_float(&mut steps, SOLUTION_REGISTER, a);
        push_write_float(&mut steps, BUFFER_REGISTER, value);
        push_trigger(&mut steps, MEMORY_WRITE, MEMORY_MS);
        assert(steps@ =~= write_eeprom_steps(a, value));
        steps
    }

    /// Read the saved probe potential; four bytes come back.
    pub fn get_probe_potential(&self) -> (r: Vec<BusStep>)
        ensures
            exists|a: u32| byte_argument(POTENTIAL_ADDRESS, a) && r@ == read_eeprom_steps(a),
    {
        self.read_eeprom(POTENTIAL_ADDRESS)
    }

    /// Save the probe potential.
    pub fn set_probe_potential(&self, potential: u32) -> (r: Vec<BusStep>)
        ensures
            exists|a: u32|
                byte_argument(POTENTIAL_ADDRESS, a) && r@ == write_eeprom_steps(a, potential),
    {
        self.write_eeprom(POTENTIAL_ADDRESS, potential)
    }
}

} // verus!

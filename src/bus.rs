use vstd::prelude::*;
use crate::codec::{le_bytes, encode_float_bits};

verus! {

/// One transaction on the bus, or a pause between transactions.
#[derive(Clone, Copy, Debug, PartialEq, Eq, Structural)]
pub enum BusStep {
    /// Point the device at a register (an SMBus "write byte").
    Select(u8),
    /// Write `value` into `register` (an SMBus "write byte data").
    WriteData(u8, u8),
    /// Read one byte at the device's register pointer, which then moves on by one
    /// (an SMBus "read byte"); the byte is handed back to the library.
    ReadByte,
    /// Wait this many milliseconds before the next step.
    Wait(u32),
}

/// The pause after each byte transaction, in milliseconds.
pub const SETTLE_MS: u32 = 10;

/// The control register that task opcodes are written to.
pub const TASK_REGISTER: u8 = 38;

/// Select a register and let the device settle.
pub open spec fn select_steps(register: u8) -> Seq<BusStep> {
    seq![BusStep::Select(register), BusStep::Wait(SETTLE_MS)]
}

/// Frame a float into the four registers from `register` on, least significant
/// byte first, each byte followed by a settle delay.
pub open spec fn write_float_steps(register: u8, bits: u32) -> Seq<BusStep> {
    let b = le_bytes(bits);
    select_steps(register) + seq![
        BusStep::WriteData(register, b[0]),
        BusStep::Wait(SETTLE_MS),
        BusStep::WriteData((register + 1) as u8, b[1]),
        BusStep::Wait(SETTLE_MS),
        BusStep::WriteData((register + 2) as u8, b[2]),
        BusStep::Wait(SETTLE_MS),
        BusStep::WriteData((register + 3) as u8, b[3]),
        BusStep::Wait(SETTLE_MS),
    ]
}

/// Read the four bytes of a float register, each read followed by a settle delay.
pub open spec fn read_float_steps(register: u8) -> Seq<BusStep> {
    select_steps(register) + seq![
        BusStep::ReadByte,
        BusStep::Wait(SETTLE_MS),
        BusStep::ReadByte,
        BusStep::Wait(SETTLE_MS),
        BusStep::ReadByte,
        BusStep::Wait(SETTLE_MS),
        BusStep::ReadByte,
        BusStep::Wait(SETTLE_MS),
    ]
}

/// Write a task opcode to the control register, then wait for the task.
pub open spec fn trigger_steps(opcode: u8, wait_ms: u32) -> Seq<BusStep> {
    seq![BusStep::WriteData(TASK_REGISTER, opcode), BusStep::Wait(wait_ms)]
}

/// Append `select_steps(register)`.
pub fn push_select(steps: &mut Vec<BusStep>, register: u8)
    ensures
        final(steps)@ == old(steps)@ + select_steps(register),
{
    steps.push(BusStep::Select(register));
    steps.push(BusStep::Wait(SETTLE_MS));
    assert(final(steps)@ =~= old(steps)@ + select_steps(register));
}

/// Append `write_float_steps(register, bits)`.
pub fn push_write_float(steps: &mut Vec<BusStep>, register: u8, bits: u32)
    requires
        register <= 252,
    ensures
        final(steps)@ == old(steps)@ + write_float_steps(register, bits),
{
    let b = encode_float_bits(bits);
    push_select(steps, register);
    steps.push(BusStep::WriteData(register, b[0]));
    steps.push(BusStep::Wait(SETTLE_MS));
    steps.push(BusStep::WriteData(register + 1, b[1]));
    steps.push(BusStep::Wait(SETTLE_MS));
    steps.push(BusStep::WriteData(register + 2, b[2]));
    steps.push(BusStep::Wait(SETTLE_MS));
    steps.push(BusStep::WriteData(register + 3, b[3]));
    steps.push(BusStep::Wait(SETTLE_MS));
    assert(final(steps)@ =~= old(steps)@ + write_float_steps(register, bits));
}

/// Append `read_float_steps(register)`.
pub fn push_read_float(steps: &mut Vec<BusStep>, register: u8)
    ensures
        final(steps)@ == old(steps)@ + read_float_steps(register),
{
    push_select(steps, register);
    steps.push(BusStep::ReadByte);
    steps.push(BusStep::Wait(SETTLE_MS));
    steps.push(BusStep::ReadByte);
    steps.push(BusStep::Wait(SETTLE_MS));
    steps.push(BusStep::ReadByte);
    steps.push(BusStep::Wait(SETTLE_MS));
    steps.push(BusStep::ReadByte);
    steps.push(BusStep::Wait(SETTLE_MS));
    assert(final(steps)@ =~= old(steps)@ + read_float_steps(register));
}

/// Append `trigger_steps(opcode, wait_ms)`.
pub fn push_trigger(steps: &mut Vec<BusStep>, opcode: u8, wait_ms: u32)
    ensures
        final(steps)@ == old(steps)@ + trigger_steps(opcode, wait_ms),
{
    steps.push(BusStep::WriteData(TASK_REGISTER, opcode));
    steps.push(BusStep::Wait(wait_ms));
    assert(final(steps)@ =~= old(steps)@ + trigger_steps(opcode, wait_ms));
}

} // verus!

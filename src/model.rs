use vstd::prelude::*;
use crate::bus::{BusStep, TASK_REGISTER, write_float_steps, read_float_steps, trigger_steps, select_steps};
use crate::codec::{le_bytes, le_value, lemma_le_value_of_bytes};
use crate::config::{config_flag, with_flag_spec, lemma_with_flag};
use crate::ieee::{NAN_BITS, lemma_encodes_int_unique};
use crate::probe::{
    SOLUTION_REGISTER, BUFFER_REGISTER, CONFIG_REGISTER, MEMORY_WRITE, MEMORY_READ, MEMORY_MS,
    CALIBRATE_SINGLE_REGISTER, CALIBRATE_REFHIGH_REGISTER, CALIBRATE_REFLOW_REGISTER,
    CALIBRATE_READHIGH_REGISTER, CALIBRATE_READLOW_REGISTER, reset_steps, read_config_steps,
    config_update_read_steps, config_write_steps, read_eeprom_steps, write_eeprom_steps,
    byte_argument,
};

verus! {

// The board as the bus steps see it: one byte per register, a register pointer
// that a select sets and each read moves on, and the user EEPROM, whose slots
// the firmware keys by the bytes of the solution register and fills from, or
// copies into, the buffer register.

pub struct Board {
    pub regs: Map<u8, u8>,
    pub pointer: u8,
    pub eeprom: Map<Seq<u8>, Seq<u8>>,
}

/// The four bytes from register `r` on.
pub open spec fn bytes_at(regs: Map<u8, u8>, r: u8) -> Seq<u8> {
    seq![regs[r], regs[(r + 1) as u8], regs[(r + 2) as u8], regs[(r + 3) as u8]]
}

/// The registers with the four bytes `b` stored from register `r` on.
pub open spec fn store_bytes(regs: Map<u8, u8>, r: u8, b: Seq<u8>) -> Map<u8, u8> {
    regs.insert(r, b[0]).insert((r + 1) as u8, b[1]).insert((r + 2) as u8, b[2]).insert(
        (r + 3) as u8,
        b[3],
    )
}

/// One step on the board: the board after it, and the bytes that it reads.
pub open spec fn step(s: Board, st: BusStep) -> (Board, Seq<u8>) {
    match st {
        BusStep::Select(r) => (Board { regs: s.regs, pointer: r, eeprom: s.eeprom }, seq![]),
        BusStep::WriteData(r, v) => {
            let key = bytes_at(s.regs, SOLUTION_REGISTER);
            if r == TASK_REGISTER && v == MEMORY_WRITE {
                (
                    Board {
                        regs: s.regs,
                        pointer: s.pointer,
                        eeprom: s.eeprom.insert(key, bytes_at(s.regs, BUFFER_REGISTER)),
                    },
                    seq![],
                )
            } else if r == TASK_REGISTER && v == MEMORY_READ && s.eeprom.contains_key(key) {
                (
                    Board {
                        regs: store_bytes(s.regs, BUFFER_REGISTER, s.eeprom[key]),
                        pointer: s.pointer,
                        eeprom: s.eeprom,
                    },
                    seq![],
                )
            } else {
                (Board { regs: s.regs.insert(r, v), pointer: s.pointer, eeprom: s.eeprom }, seq![])
            }
        },
        BusStep::ReadByte => (
            Board { regs: s.regs, pointer: (s.pointer + 1) as u8, eeprom: s.eeprom },
            seq![s.regs[s.pointer]],
        ),
        BusStep::Wait(_) => (s, seq![]),
    }
}

/// A program of steps run on the board: the board after it, and the bytes that
/// it reads, in order.
pub open spec fn run(s: Board, steps: Seq<BusStep>) -> (Board, Seq<u8>)
    decreases steps.len(),
{
    if steps.len() == 0 {
        (s, seq![])
    } else {
        let (s1, o1) = step(s, steps[0]);
        let (s2, o2) = run(s1, steps.drop_first());
        (s2, o1 + o2)
    }
}

/// Running two programs one after the other is running the two joined.
pub proof fn lemma_run_append(s: Board, a: Seq<BusStep>, b: Seq<BusStep>)
    ensures
        run(s, a + b).0 == run(run(s, a).0, b).0,
        run(s, a + b).1 == run(s, a).1 + run(run(s, a).0, b).1,
    decreases a.len(),
{
    if a.len() == 0 {
        assert(a + b =~= b);
    } else {
        assert((a + b).drop_first() =~= a.drop_first() + b);
        let s1 = step(s, a[0]).0;
        lemma_run_append(s1, a.drop_first(), b);
        assert(run(s, a + b).1 =~= run(s, a).1 + run(run(s, a).0, b).1);
    }
}

/// Framing a float into registers below the control register stores its four
/// bytes there and reads nothing.
pub proof fn lemma_run_write_float(s: Board, r: u8, bits: u32)
    requires
        r as int + 3 < TASK_REGISTER,
    ensures
        run(s, write_float_steps(r, bits)).0 == (Board {
            regs: store_bytes(s.regs, r, le_bytes(bits)),
            pointer: r,
            eeprom: s.eeprom,
        }),
        run(s, write_float_steps(r, bits)).1 == Seq::<u8>::empty(),
{
    reveal_with_fuel(run, 11);
    let st = write_float_steps(r, bits);
    assert(st.len() == 10);
    let out = run(s, st);
    assert(out.1 =~= Seq::<u8>::empty());
}

/// Reading a float register hands back its four bytes and changes no register.
pub proof fn lemma_run_read_float(s: Board, r: u8)
    requires
        r as int + 3 < 256,
    ensures
        run(s, read_float_steps(r)).0 == (Board {
            regs: s.regs,
            pointer: (r + 4) as u8,
            eeprom: s.eeprom,
        }),
        run(s, read_float_steps(r)).1 == bytes_at(s.regs, r),
{
    reveal_with_fuel(run, 11);
    let st = read_float_steps(r);
    assert(st.len() == 10);
    let out = run(s, st);
    assert(out.1 =~= bytes_at(s.regs, r));
}

/// Four stored bytes are read back where they were stored, and leave other
/// four-byte registers alone.
pub proof fn lemma_bytes_at_store(regs: Map<u8, u8>, r: u8, b: Seq<u8>, q: u8)
    requires
        b.len() == 4,
        r as int + 3 < 256,
        q as int + 3 < 256,
    ensures
        q == r ==> bytes_at(store_bytes(regs, r, b), q) == b,
        (q as int + 4 <= r || r as int + 4 <= q) ==> bytes_at(store_bytes(regs, r, b), q) == bytes_at(
            regs,
            q,
        ),
{
    if q == r {
        assert(bytes_at(store_bytes(regs, r, b), q) =~= b);
    }
    if q as int + 4 <= r || r as int + 4 <= q {
        assert(bytes_at(store_bytes(regs, r, b), q) =~= bytes_at(regs, q));
    }
}

/// A task trigger acts as its write to the control register.
pub proof fn lemma_run_trigger(s: Board, opcode: u8, wait_ms: u32)
    ensures
        run(s, trigger_steps(opcode, wait_ms)) == step(s, BusStep::WriteData(TASK_REGISTER, opcode)),
{
    reveal_with_fuel(run, 3);
    let out = run(s, trigger_steps(opcode, wait_ms));
    assert(out.1 =~= step(s, BusStep::WriteData(TASK_REGISTER, opcode)).1);
}

/// The registers of the single-point offset and of the four dual-point values.
pub open spec fn is_calibration_register(r: u8) -> bool {
    r == CALIBRATE_SINGLE_REGISTER || r == CALIBRATE_REFHIGH_REGISTER || r
        == CALIBRATE_REFLOW_REGISTER || r == CALIBRATE_READHIGH_REGISTER || r
        == CALIBRATE_READLOW_REGISTER
}

/// After a reset, reading any of the five calibration registers gives back the
/// NaN marker, whatever the board held before.
pub proof fn lemma_reset_clears_calibration(s: Board, r: u8)
    requires
        is_calibration_register(r),
    ensures
        run(run(s, reset_steps()).0, read_float_steps(r)).1 == le_bytes(NAN_BITS),
        le_value(run(run(s, reset_steps()).0, read_float_steps(r)).1) == NAN_BITS,
{
    let n = NAN_BITS;
    let w1 = write_float_steps(CALIBRATE_REFLOW_REGISTER, n);
    let w2 = write_float_steps(CALIBRATE_REFHIGH_REGISTER, n);
    let w3 = write_float_steps(CALIBRATE_READLOW_REGISTER, n);
    let w4 = write_float_steps(CALIBRATE_READHIGH_REGISTER, n);
    let w5 = write_float_steps(CALIBRATE_SINGLE_REGISTER, n);
    lemma_run_append(s, w1, w2);
    lemma_run_append(s, w1 + w2, w3);
    lemma_run_append(s, w1 + w2 + w3, w4);
    lemma_run_append(s, w1 + w2 + w3 + w4, w5);
    let s1 = run(s, w1).0;
    let s2 = run(s1, w2).0;
    let s3 = run(s2, w3).0;
    let s4 = run(s3, w4).0;
    let s5 = run(s4, w5).0;
    lemma_run_write_float(s, CALIBRATE_REFLOW_REGISTER, n);
    lemma_run_write_float(s1, CALIBRATE_REFHIGH_REGISTER, n);
    lemma_run_write_float(s2, CALIBRATE_READLOW_REGISTER, n);
    lemma_run_write_float(s3, CALIBRATE_READHIGH_REGISTER, n);
    lemma_run_write_float(s4, CALIBRATE_SINGLE_REGISTER, n);
    assert(run(s, reset_steps()).0 == s5);
    let b = le_bytes(n);
    lemma_bytes_at_store(s.regs, CALIBRATE_REFLOW_REGISTER, b, r);
    lemma_bytes_at_store(s1.regs, CALIBRATE_REFHIGH_REGISTER, b, r);
    lemma_bytes_at_store(s2.regs, CALIBRATE_READLOW_REGISTER, b, r);
    lemma_bytes_at_store(s3.regs, CALIBRATE_READHIGH_REGISTER, b, r);
    lemma_bytes_at_store(s4.regs, CALIBRATE_SINGLE_REGISTER, b, r);
    assert(bytes_at(s5.regs, r) == b);
    lemma_run_read_float(s5, r);
    lemma_le_value_of_bytes(n);
}

/// A value stored in EEPROM slot `address` is the value read back from that
/// slot. `a` and `b` are the patterns that carry the address to the board in the
/// write and in the read.
pub proof fn lemma_eeprom_round_trip(s: Board, address: u8, a: u32, b: u32, value: u32)
    requires
        byte_argument(address, a),
        byte_argument(address, b),
    ensures
        run(run(s, write_eeprom_steps(a, value)).0, read_eeprom_steps(b)).1 == le_bytes(value),
        le_value(run(run(s, write_eeprom_steps(a, value)).0, read_eeprom_steps(b)).1) == value,
{
    lemma_encodes_int_unique(a, b, address as int);
    let wa = write_float_steps(SOLUTION_REGISTER, a);
    let wv = write_float_steps(BUFFER_REGISTER, value);
    let tw = trigger_steps(MEMORY_WRITE, MEMORY_MS);
    let tr = trigger_steps(MEMORY_READ, MEMORY_MS);
    let rb = read_float_steps(BUFFER_REGISTER);
    lemma_run_append(s, wa, wv);
    lemma_run_append(s, wa + wv, tw);
    let s1 = run(s, wa).0;
    let s2 = run(s1, wv).0;
    let s3 = run(s2, tw).0;
    lemma_run_write_float(s, SOLUTION_REGISTER, a);
    lemma_run_write_float(s1, BUFFER_REGISTER, value);
    lemma_run_trigger(s2, MEMORY_WRITE, MEMORY_MS);
    lemma_bytes_at_store(s1.regs, BUFFER_REGISTER, le_bytes(value), BUFFER_REGISTER);
    lemma_bytes_at_store(s1.regs, BUFFER_REGISTER, le_bytes(value), SOLUTION_REGISTER);
    lemma_bytes_at_store(s.regs, SOLUTION_REGISTER, le_bytes(a), SOLUTION_REGISTER);
    assert(s3.eeprom == s.eeprom.insert(le_bytes(a), le_bytes(value)));
    assert(run(s, write_eeprom_steps(a, value)).0 == s3);
    lemma_run_append(s3, wa, tr);
    lemma_run_append(s3, wa + tr, rb);
    let s4 = run(s3, wa).0;
    let s5 = run(s4, tr).0;
    lemma_run_write_float(s3, SOLUTION_REGISTER, a);
    lemma_run_trigger(s4, MEMORY_READ, MEMORY_MS);
    lemma_bytes_at_store(s3.regs, SOLUTION_REGISTER, le_bytes(a), SOLUTION_REGISTER);
    assert(s4.eeprom.contains_key(bytes_at(s4.regs, SOLUTION_REGISTER)));
    lemma_bytes_at_store(s4.regs, BUFFER_REGISTER, le_bytes(value), BUFFER_REGISTER);
    lemma_run_read_float(s5, BUFFER_REGISTER);
    assert(run(s3, read_eeprom_steps(b)).1 == run(s5, rb).1);
    lemma_le_value_of_bytes(value);
}

/// Turning a config flag on or off and then reading the config byte gives that
/// flag the value set, and every other flag the value that was read before.
pub proof fn lemma_config_round_trip(s: Board, bit: u8, on: bool)
    requires
        bit < 8,
    ensures
        ({
            let (s1, before) = run(s, config_update_read_steps());
            let s2 = run(s1, config_write_steps(with_flag_spec(before[0], bit, on))).0;
            let after = run(s2, read_config_steps()).1;
            &&& after.len() == 1
            &&& config_flag(after[0], bit) == on as u8
            &&& forall|i: u8|
                i < 8 && i != bit ==> #[trigger] config_flag(after[0], i) == config_flag(
                    before[0],
                    i,
                )
        }),
{
    reveal_with_fuel(run, 5);
    let (s1, before) = run(s, config_update_read_steps());
    assert(before =~= seq![s.regs[CONFIG_REGISTER]]);
    let c = with_flag_spec(before[0], bit, on);
    let s2 = run(s1, config_write_steps(c)).0;
    assert(s2.regs[CONFIG_REGISTER] == c);
    let after = run(s2, read_config_steps()).1;
    assert(after =~= seq![c]);
    lemma_with_flag(before[0], bit, on);
}

} // verus!

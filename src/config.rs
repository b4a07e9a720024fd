use vstd::prelude::*;

verus! {

/// Bit of the config byte that turns dual-point calibration on.
pub const DUAL_POINT_BIT: u8 = 0;

/// Bit of the config byte that turns temperature compensation on.
pub const TEMP_COMPENSATION_BIT: u8 = 1;

/// Bit `bit` of the config byte, as 0 or 1.
pub open spec fn config_flag(config: u8, bit: u8) -> u8 {
    (config >> bit) & 1
}

/// Bit `bit` of `config`, as 0 or 1.
pub fn flag_of(config: u8, bit: u8) -> (r: u8)
    requires
        bit < 8,
    ensures
        r == config_flag(config, bit),
        r <= 1,
{
    let r = (config >> bit) & 1;
    assert(r <= 1) by (bit_vector)
        requires
            r == (config >> bit) & 1,
    ;
    r
}

/// `config` with bit `bit` set when `on` and cleared otherwise.
pub open spec fn with_flag_spec(config: u8, bit: u8, on: bool) -> u8 {
    if on {
        config | (1u8 << bit)
    } else {
        config & !(1u8 << bit)
    }
}

/// Setting or clearing a flag gives it the value asked for and leaves every
/// other bit of the config byte as it was.
pub proof fn lemma_with_flag(config: u8, bit: u8, on: bool)
    requires
        bit < 8,
    ensures
        forall|i: u8|
            i < 8 ==> #[trigger] config_flag(with_flag_spec(config, bit, on), i) == if i == bit {
                on as u8
            } else {
                config_flag(config, i)
            },
{
    assert forall|i: u8| i < 8 implies #[trigger] config_flag(with_flag_spec(config, bit, on), i)
        == if i == bit {
        on as u8
    } else {
        config_flag(config, i)
    } by {
        if on {
            assert(((config | (1u8 << bit)) >> i) & 1 == if i == bit {
                1u8
            } else {
                (config >> i) & 1
            }) by (bit_vector)
                requires
                    i < 8,
                    bit < 8,
            ;
        } else {
            assert(((config & !(1u8 << bit)) >> i) & 1 == if i == bit {
                0u8
            } else {
                (config >> i) & 1
            }) by (bit_vector)
                requires
                    i < 8,
                    bit < 8,
            ;
        }
    }
}

pub fn with_flag(config: u8, bit: u8, on: bool) -> (r: u8)
    requires
        bit < 8,
    ensures
        r == with_flag_spec(config, bit, on),
{
    if on {
        config | (1u8 << bit)
    } else {
        config & !(1u8 << bit)
    }
}

} // verus!

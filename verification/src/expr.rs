//! Arithmetic of BASIC expressions that does not depend on the tokenizer.

use vstd::prelude::*;

verus! {

/// The 16-bit pattern of `value` shifted by `amount` bits, right (logical)
/// when `right` holds; 0 once the amount reaches 16.
pub open spec fn spec_shift_bits(value: i16, amount: u32, right: bool) -> i16 {
    if amount >= 16 {
        0
    } else if right {
        ((value as u16) >> (amount as u16)) as i16
    } else {
        ((value as u16) << (amount as u16)) as i16
    }
}

/// `<<` / `>>` of BASIC: a negative amount shifts the other way, and an
/// amount of 16 or more gives 0.
pub open spec fn spec_shift_signed(value: i16, v2: i16, right: bool) -> i16 {
    let amount: int = if v2 < 0 { -v2 } else { v2 as int };
    spec_shift_bits(value, amount as u32, right == (v2 >= 0))
}

/// Shifts the 16-bit pattern of `value` by `v2` bits; `right` selects `>>`.
/// Any amount is accepted (see [`spec_shift_signed`]).
pub fn shift_signed(value: i16, v2: i16, right: bool) -> (r: i16)
    ensures
        r == spec_shift_signed(value, v2, right),
{
    let abs: u32 = if v2 < 0 { (-(v2 as i32)) as u32 } else { v2 as u32 };
    if abs >= 16 {
        return 0;
    }
    let go_right = right == (v2 >= 0);
    let u = value as u16;
    let a = abs as u16;
    if go_right {
        (u >> a) as i16
    } else {
        (u << a) as i16
    }
}

/// Shifting by a negative amount is shifting the other way.
pub proof fn lemma_shift_direction(value: i16, v2: i16)
    requires
        v2 > i16::MIN,
    ensures
        spec_shift_signed(value, v2, true) == spec_shift_signed(value, -v2 as i16, false),
{
    if v2 == 0 {
        lemma_shift_zero(value, true);
        lemma_shift_zero(value, false);
    }
}

/// Shifting by 0 keeps the value.
pub proof fn lemma_shift_zero(value: i16, right: bool)
    ensures
        spec_shift_signed(value, 0, right) == value,
{
    let u = value as u16;
    assert(u >> 0u16 == u && u << 0u16 == u) by (bit_vector);
    assert((value as u16) as i16 == value) by (bit_vector);
}

} // verus!

//! Integer sine by table: degrees in, -256..=256 out (0 degrees gives exactly 0).

use vstd::prelude::*;

verus! {

/// sin(d) * 256 - 1, rounded, for d = 0..=90 (the table entry 0 stands for 0).
pub open spec fn sin_table() -> Seq<u8> {
    seq![0u8, 3u8, 8u8, 12u8, 17u8, 21u8, 26u8, 30u8, 35u8, 39u8, 43u8, 48u8, 52u8, 57u8, 61u8, 65u8, 70u8, 74u8, 78u8, 82u8, 87u8, 91u8, 95u8, 99u8, 103u8, 107u8, 111u8, 115u8, 119u8, 123u8, 127u8, 131u8, 135u8, 138u8, 142u8, 146u8, 149u8, 153u8, 157u8, 160u8, 164u8, 167u8, 170u8, 174u8, 177u8, 180u8, 183u8, 186u8, 189u8, 192u8, 195u8, 198u8, 201u8, 203u8, 206u8, 209u8, 211u8, 214u8, 216u8, 218u8, 221u8, 223u8, 225u8, 227u8, 229u8, 231u8, 233u8, 235u8, 236u8, 238u8, 240u8, 241u8, 242u8, 244u8, 245u8, 246u8, 247u8, 248u8, 249u8, 250u8, 251u8, 252u8, 253u8, 253u8, 254u8, 254u8, 254u8, 255u8, 255u8, 255u8, 255u8]
}

/// The angle folded into 0..=360 (0 stays 0; other multiples of 360 give 360).
pub open spec fn fold_360(d: int) -> int {
    if d > 360 { (d - 1) % 360 + 1 } else { d }
}

/// `sin360` on every input it accepts.
pub open spec fn spec_sin360(deg: int) -> int {
    let pm0: int = if deg < 0 { -1 } else { 1 };
    let d1 = fold_360(if deg < 0 { -deg } else { deg });
    let d2 = if d1 > 180 { d1 - 180 } else { d1 };
    let pm1: int = if d1 > 180 { -pm0 } else { pm0 };
    let d3 = if d2 > 90 { 180 - d2 } else { d2 };
    if d3 == 0 { 0 } else { pm1 * (sin_table()[d3] + 1) }
}

/// 256 * sin(deg degrees), from the table.
pub fn sin360(deg: i32) -> (r: i32)
    requires
        deg > i32::MIN,
    ensures
        r == spec_sin360(deg as int),
        -256 <= r <= 256,
{
    let table: [u8; 91] = [0, 3, 8, 12, 17, 21, 26, 30, 35, 39, 43, 48, 52, 57, 61, 65, 70, 74, 78, 82, 87, 91, 95, 99, 103, 107, 111, 115, 119, 123, 127, 131, 135, 138, 142, 146, 149, 153, 157, 160, 164, 167, 170, 174, 177, 180, 183, 186, 189, 192, 195, 198, 201, 203, 206, 209, 211, 214, 216, 218, 221, 223, 225, 227, 229, 231, 233, 235, 236, 238, 240, 241, 242, 244, 245, 246, 247, 248, 249, 250, 251, 252, 253, 253, 254, 254, 254, 255, 255, 255, 255];
    assert(table@ == sin_table());
    let mut deg = deg;
    let mut pm: i32 = 1;
    if deg < 0 {
        deg = -deg;
        pm = -pm;
    }
    let ghost d0 = deg as int;
    while deg > 360
        invariant
            deg > 0 || d0 == 0,
            d0 >= 0,
            deg <= d0,
            d0 > 360 ==> deg > 0 && (deg - 1) % 360 == (d0 - 1) % 360,
            d0 <= 360 ==> deg == d0,
        decreases deg,
    {
        deg = deg - 360;
    }
    assert(deg == fold_360(d0));
    if deg > 180 {
        deg = deg - 180;
        pm = -pm;
    }
    if deg > 90 {
        deg = 180 - deg;
    }
    if deg == 0 {
        return 0;
    }
    assert(0 <= table@[deg as int] <= 255);
    pm * (table[deg as usize] as i32 + 1)
}

/// sin360 is odd: the angle's sign flips the result's sign.
pub proof fn lemma_sin360_odd(d: int)
    ensures
        spec_sin360(-d) == -spec_sin360(d),
{
    let a = if d < 0 { -d } else { d };
    let d1 = fold_360(a);
    let d2 = if d1 > 180 { d1 - 180 } else { d1 };
    let d3 = if d2 > 90 { 180 - d2 } else { d2 };
    let v = sin_table()[d3] + 1;
    assert(-1 * v == -v && 1 * v == v && -(-1 * v) == v && -(1 * v) == -v) by (nonlinear_arith);
}

/// sin360 repeats every 360 degrees.
pub proof fn lemma_sin360_periodic(d: int)
    ensures
        spec_sin360(d + 360) == spec_sin360(d),
{
}

} // verus!

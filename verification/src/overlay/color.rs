//! Colours of traps.
use vstd::prelude::*;

verus! {

/// A number whose bits depend on all the bits of `n`. Objects lie side by side
/// in the heap, and without mixing their hues would hardly differ.
pub open spec fn mixed(n: u32) -> u32 {
    let a = n ^ (n >> 16u32);
    let b = ((a * 0x7FEB_352D) % 0x1_0000_0000) as u32;
    let c = b ^ (b >> 15u32);
    let d = ((c * 0x846C_A68B) % 0x1_0000_0000) as u32;
    d ^ (d >> 16u32)
}

/// The hue of the object at an address, in degrees.
pub open spec fn hue_of(addr: usize) -> u32 {
    mixed(addr as u32) % 360
}

/// The hue of the object at an address, in degrees. The same object has the same
/// hue on the screen and in the list.
pub fn hue(addr: usize) -> (degrees: u32)
    ensures
        degrees == hue_of(addr),
        degrees < 360,
{
    let n: u32 = addr as u32;
    let a: u32 = n ^ (n >> 16);
    let b: u32 = a.wrapping_mul(0x7FEB_352D);
    let c: u32 = b ^ (b >> 15);
    let d: u32 = c.wrapping_mul(0x846C_A68B);
    let e: u32 = d ^ (d >> 16);
    e % 360
}

/// Multiplying by a factor that has an inverse loses nothing.
proof fn lemma_factor(a: u32, b: u32, factor: int, inverse: int)
    requires
        factor * inverse % 0x1_0000_0000 == 1,
        (a * factor) % 0x1_0000_0000 == (b * factor) % 0x1_0000_0000,
    ensures
        a == b,
{
    let m = 0x1_0000_0000int;
    let x = a as int;
    let y = b as int;
    let q = factor * inverse / m;
    let s = x * factor / m;
    let t = y * factor / m;
    assert(factor * inverse == m * q + 1) by (nonlinear_arith)
        requires
            q == factor * inverse / m,
            m == 0x1_0000_0000,
            factor * inverse % m == 1,
    ;
    assert(x * factor - y * factor == m * (s - t)) by (nonlinear_arith)
        requires
            s == x * factor / m,
            t == y * factor / m,
            (x * factor) % m == (y * factor) % m,
            m == 0x1_0000_0000,
    ;
    assert((x - y) * (factor * inverse) == m * ((s - t) * inverse)) by (nonlinear_arith)
        requires
            x * factor - y * factor == m * (s - t),
    ;
    let k = (s - t) * inverse - (x - y) * q;
    assert(x - y == m * k) by (nonlinear_arith)
        requires
            (x - y) * (factor * inverse) == m * ((s - t) * inverse),
            factor * inverse == m * q + 1,
            k == (s - t) * inverse - (x - y) * q,
    ;
    assert(k == 0) by (nonlinear_arith)
        requires
            x - y == m * k,
            m == 0x1_0000_0000,
            -0x1_0000_0000 < x - y < 0x1_0000_0000,
    ;
}

/// Mixing loses nothing: two objects whose addresses differ never get the same
/// mixed number.
pub proof fn law_mixing_loses_nothing(a: u32, b: u32)
    requires
        mixed(a) == mixed(b),
    ensures
        a == b,
{
    let a1 = a ^ (a >> 16u32);
    let b1 = b ^ (b >> 16u32);
    let a2 = ((a1 * 0x7FEB_352D) % 0x1_0000_0000) as u32;
    let b2 = ((b1 * 0x7FEB_352D) % 0x1_0000_0000) as u32;
    let a3 = a2 ^ (a2 >> 15u32);
    let b3 = b2 ^ (b2 >> 15u32);
    let a4 = ((a3 * 0x846C_A68B) % 0x1_0000_0000) as u32;
    let b4 = ((b3 * 0x846C_A68B) % 0x1_0000_0000) as u32;
    assert(a4 ^ (a4 >> 16u32) == b4 ^ (b4 >> 16u32) ==> a4 == b4) by (bit_vector);
    lemma_factor(a3, b3, 0x846C_A68B, 0x4302_1123);
    assert(a2 ^ (a2 >> 15u32) == b2 ^ (b2 >> 15u32) ==> a2 == b2) by (bit_vector);
    lemma_factor(a1, b1, 0x7FEB_352D, 0x1D69_E2A5);
    assert(a ^ (a >> 16u32) == b ^ (b >> 16u32) ==> a == b) by (bit_vector);
}

/// A hue is what is left of the mixed number after whole turns of 360 degrees.
pub proof fn law_hue(addr: usize) -> (turns: int)
    ensures
        hue_of(addr) < 360,
        turns >= 0,
        mixed(addr as u32) == 360 * turns + hue_of(addr),
{
    mixed(addr as u32) as int / 360
}

} // verus!

//! The integer part of each operator kernel.
//!
//! Each linear kernel expands the quantized dot product so that all per-layer
//! scalar work is folded at compile time; what stays for run time is an
//! integer accumulator per output element, computed here. The caller scales
//! that accumulator, rounds it, and hands it to
//! [`requantize`](crate::activation::requantize).

pub mod average_pool_2d;
pub mod conv_2d;
pub mod depthwise_conv_2d;
pub mod fully_connected;
pub mod reshape;

use vstd::prelude::*;

use crate::quantize::{widest_max, Quantized};

verus! {

/// Largest number of terms a 64-bit accumulator sums without overflow.
pub open spec fn max_terms() -> int {
    0xFFFF_FFFF
}

/// Largest magnitude of a folded integer constant.
pub open spec fn max_folded() -> int {
    0x0100_0000_0000_0000
}

/// Largest magnitude of a product of two elements.
pub open spec fn max_product() -> int {
    65025
}

pub proof fn lemma_product_bound<T: Quantized>(a: T, b: T)
    ensures
        -max_product() <= a.value() * b.value() <= max_product(),
        -widest_max() <= a.value() <= widest_max(),
{
    T::lemma_range(a);
    T::lemma_range(b);
    let x = a.value();
    let y = b.value();
    assert(-65025 <= x * y <= 65025) by (nonlinear_arith)
        requires
            -128 <= x <= 255,
            -128 <= y <= 255,
    ;
}

pub proof fn lemma_scaled_bound(z: int, s: int, n: int)
    requires
        -widest_max() <= z <= widest_max(),
        0 <= n <= max_terms(),
        -n * widest_max() <= s <= n * widest_max(),
    ensures
        -max_terms() * max_product() <= z * s <= max_terms() * max_product(),
{
    assert(-max_terms() * 255 <= s <= max_terms() * 255) by (nonlinear_arith)
        requires
            0 <= n <= max_terms(),
            -n * 255 <= s <= n * 255,
    ;
    assert(-max_terms() * max_product() <= z * s <= max_terms() * max_product()) by (nonlinear_arith)
        requires
            -255 <= z <= 255,
            -max_terms() * 255 <= s <= max_terms() * 255,
    ;
}

/// Position of the first largest element of `values`.
pub fn argmax<T: Quantized>(values: &Vec<T>) -> (r: usize)
    requires
        values@.len() >= 1,
    ensures
        r < values@.len(),
        forall|i: int| 0 <= i < values@.len() ==> (#[trigger] values@[i]).value() <= values@[r as int].value(),
        forall|i: int| 0 <= i < r ==> (#[trigger] values@[i]).value() < values@[r as int].value(),
{
    let mut best: usize = 0;
    let mut i: usize = 1;
    while i < values.len()
        invariant
            values@.len() >= 1,
            1 <= i <= values@.len(),
            best < i,
            forall|a: int| 0 <= a < i ==> (#[trigger] values@[a]).value() <= values@[best as int].value(),
            forall|a: int| 0 <= a < best ==> (#[trigger] values@[a]).value() < values@[best as int].value(),
        decreases values@.len() - i,
    {
        if values[i].to_i32() > values[best].to_i32() {
            best = i;
        }
        i += 1;
    }
    best
}

} // verus!

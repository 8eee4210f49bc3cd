//! Euclidean remainder, for wrapping screen coordinates.

use vstd::arithmetic::div_mod::{lemma_fundamental_div_mod, lemma_fundamental_div_mod_converse};
use vstd::prelude::*;

verus! {

/// A remainder that is never negative, whatever the sign of the dividend.
pub trait Modulo<Divisor = Self>: Sized {
    type Output;

    /// Whether `div` may be used as a divisor.
    spec fn valid_divisor(div: Divisor) -> bool;

    /// The remainder of `self` by `div`, in `0..div`.
    spec fn modulo_spec(self, div: Divisor) -> Self::Output;

    fn modulo(self, div: Divisor) -> (r: Self::Output)
        requires
            Self::valid_divisor(div),
        ensures
            r == self.modulo_spec(div),
    ;
}

impl Modulo for isize {
    type Output = usize;

    open spec fn valid_divisor(div: isize) -> bool {
        div > 0
    }

    /// Euclidean remainder: the `r` in `0..div` with `self == q * div + r`.
    open spec fn modulo_spec(self, div: isize) -> usize {
        (self as int % div as int) as usize
    }

    fn modulo(self, div: isize) -> (r: usize) {
        // `%` on `isize` truncates toward zero, so a negative dividend
        // leaves a remainder in `-div + 1 ..= 0`.
        let t: isize = self % div;
        proof {
            let a = self as int;
            let d = div as int;
            if a < 0 {
                let q = (-a) / d;
                let m = (-a) % d;
                lemma_fundamental_div_mod(-a, d);
                if m == 0 {
                    assert(a == (-q) * d + 0) by (nonlinear_arith)
                        requires
                            -a == d * q + m,
                            m == 0,
                    ;
                    lemma_fundamental_div_mod_converse(a, d, -q, 0);
                } else {
                    assert(a == (-q - 1) * d + (d - m)) by (nonlinear_arith)
                        requires
                            -a == d * q + m,
                    ;
                    lemma_fundamental_div_mod_converse(a, d, -q - 1, d - m);
                }
            }
        }
        if t < 0 {
            (t + div) as usize
        } else {
            t as usize
        }
    }
}

} // verus!

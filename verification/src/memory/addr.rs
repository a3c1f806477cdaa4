//! A typed machine address with alignment arithmetic.

use vstd::prelude::*;
use vstd::arithmetic::power2::pow2;
use vstd::bits::low_bits_mask;
use vstd::bits::lemma_usize_low_bits_mask_is_mod;
use vstd::bits::lemma_usize_pow2_no_overflow;

verus! {

/// Holds exactly when `n` is a power of two (and hence nonzero).
pub open spec fn is_power_of_two(n: usize) -> bool {
    exists|k: nat| k < usize::BITS as nat && n == pow2(k)
}

/// `a` rounded down to the next multiple of `n`.
pub open spec fn spec_align_down(a: int, n: int) -> int {
    a - a % n
}

/// `a` rounded up past `a` to a multiple of `n`: the value `align_up` yields.
/// Note that an already-aligned address moves up by a full `n`.
pub open spec fn spec_align_up(a: int, n: int) -> int {
    spec_align_down(a + n, n)
}

/// For every address `a` and power-of-two `n` small enough that rounding up
/// stays within the machine word: `align_down(a, n) <= a <= align_up(a, n)`,
/// both results are multiples of `n`, and `align_down` is idempotent.
pub proof fn lemma_alignment_brackets(a: usize, n: usize)
    requires
        is_power_of_two(n),
        a + n <= usize::MAX,
    ensures
        spec_align_down(a as int, n as int) <= a as int,
        a as int <= spec_align_up(a as int, n as int),
        spec_align_down(a as int, n as int) % (n as int) == 0,
        spec_align_up(a as int, n as int) % (n as int) == 0,
        spec_align_down(spec_align_down(a as int, n as int), n as int) == spec_align_down(
            a as int,
            n as int,
        ),
{
    let k = choose|k: nat| k < usize::BITS as nat && n == pow2(k);
    vstd::arithmetic::power2::lemma_pow2_pos(k);
    lemma_align_down_multiple(a as int, n as int);
    lemma_align_down_multiple(a + n, n as int);
}

/// Rounding down to a multiple of `n > 0` yields a multiple of `n` no more
/// than one whole `n` below the argument, and rounding down twice is the same
/// as rounding down once.
pub proof fn lemma_align_down_multiple(a: int, n: int)
    requires
        n > 0,
    ensures
        spec_align_down(a, n) % n == 0,
        a - n < spec_align_down(a, n) <= a,
        spec_align_down(spec_align_down(a, n), n) == spec_align_down(a, n),
{
    vstd::arithmetic::div_mod::lemma_fundamental_div_mod(a, n);
    vstd::arithmetic::div_mod::lemma_mod_multiples_basic(a / n, n);
    vstd::arithmetic::mul::lemma_mul_is_commutative(a / n, n);
    assert(spec_align_down(a, n) == (a / n) * n);
}

/// For any address in the block `[k * n, (k + 1) * n)`, rounding down to a
/// multiple of `n` yields exactly the block's start `k * n`.
pub proof fn lemma_align_down_in_block(a: int, k: int, n: int)
    requires
        n > 0,
        k * n <= a < (k + 1) * n,
    ensures
        spec_align_down(a, n) == k * n,
{
    assert((k + 1) * n == k * n + n) by (nonlinear_arith);
    vstd::arithmetic::div_mod::lemma_fundamental_div_mod_converse(a, n, k, a - k * n);
}

/// Clearing the low bits of `x` below a power of two `n` rounds `x` down to a
/// multiple of `n`.
pub proof fn lemma_align_down_is_mask(x: usize, n: usize)
    requires
        is_power_of_two(n),
    ensures
        x & !((n - 1) as usize) == spec_align_down(x as int, n as int),
{
    let k = choose|k: nat| k < usize::BITS as nat && n == pow2(k);
    lemma_usize_pow2_no_overflow(k);
    lemma_usize_low_bits_mask_is_mod(x, k);
    assert(low_bits_mask(k) as usize == (n - 1) as usize);
    let m = (n - 1) as usize;
    assert(x & !m == x - (x & m)) by (bit_vector);
}

/// A memory address.
#[derive(Clone, Copy, PartialEq, Eq, Structural, Debug)]
pub struct Addr(pub usize);

impl Addr {
    /// The zero address.
    pub fn null() -> (r: Self)
        ensures
            r.0 == 0,
    {
        Addr(0)
    }

    /// Returns whether this address is considered to be null. Note that, even
    /// if this function returns `true`, it may still be possible to use this
    /// address, depending on how the page tables or physical frames are set up.
    pub fn is_null(self) -> (r: bool)
        ensures
            r == (self.0 == 0),
    {
        self.0 == 0
    }

    /// Aligns the address to `alignment` (e.g. 4096) downwards.
    pub fn align_down(self, alignment: usize) -> (r: Self)
        requires
            is_power_of_two(alignment),
        ensures
            r.0 == spec_align_down(self.0 as int, alignment as int),
    {
        let x = self.0;
        let n = alignment;
        proof {
            let k = choose|k: nat| k < usize::BITS as nat && n == pow2(k);
            vstd::arithmetic::power2::lemma_pow2_pos(k);
            lemma_align_down_is_mask(x, n);
        }
        Addr(x & !(n - 1))
    }

    /// Aligns the address to `alignment` (e.g. 4096) upwards.
    pub fn align_up(self, alignment: usize) -> (r: Self)
        requires
            is_power_of_two(alignment),
            self.0 + alignment <= usize::MAX,
        ensures
            r.0 == spec_align_up(self.0 as int, alignment as int),
    {
        Addr(self.0 + alignment).align_down(alignment)
    }

    /// The address `n` bytes further up.
    pub fn offset(self, n: usize) -> (r: Self)
        requires
            self.0 + n <= usize::MAX,
        ensures
            r.0 == self.0 + n,
    {
        Addr(self.0 + n)
    }
}

impl From<usize> for Addr {
    fn from(address: usize) -> (r: Self) {
        Addr(address)
    }
}

impl vstd::std_specs::convert::FromSpecImpl<usize> for Addr {
    open spec fn obeys_from_spec() -> bool {
        true
    }

    open spec fn from_spec(address: usize) -> Addr {
        Addr(address)
    }
}

impl From<u64> for Addr {
    fn from(address: u64) -> (r: Self) {
        Addr(address as usize)
    }
}

impl vstd::std_specs::convert::FromSpecImpl<u64> for Addr {
    open spec fn obeys_from_spec() -> bool {
        true
    }

    open spec fn from_spec(address: u64) -> Addr {
        Addr(address as usize)
    }
}

} // verus!

//! Fixed-width values shared by every other module: 256-bit words, addresses,
//! hashes and the hard-fork identifier.
use vstd::prelude::*;

verus! {

/// `2^128`, the weight of the high half of a 256-bit word.
pub open spec fn half_base() -> int {
    u128::MAX as int + 1
}

/// `2^256 - 1`, the largest value a 256-bit word can hold.
pub open spec fn word_max() -> int {
    half_base() * half_base() - 1
}

/// A 256-bit unsigned integer, kept as two 128-bit halves.
#[derive(Clone, Copy, Debug, PartialEq, Eq, Structural, Hash)]
pub struct U256 {
    /// Bits 128..256.
    pub hi: u128,
    /// Bits 0..128.
    pub lo: u128,
}

/// Key of a storage slot.
pub type StorageKey = U256;

/// Value held by a storage slot.
pub type StorageValue = U256;

/// The word that results from adding `rhs` to `lhs` modulo `2^256`.
pub open spec fn wrapping_sum(lhs: U256, rhs: U256) -> U256 {
    U256::from_int((lhs.value() + rhs.value()) % (word_max() + 1))
}

/// The word that results from subtracting `rhs` from `lhs` modulo `2^256`.
pub open spec fn wrapping_diff(lhs: U256, rhs: U256) -> U256 {
    U256::from_int((lhs.value() - rhs.value()) % (word_max() + 1))
}

/// The value of a word lies between `0` and `2^256 - 1`, and the word
/// that stands for that value is the word itself.
pub proof fn lemma_value_bounds(x: U256)
    ensures
        0 <= x.value() <= word_max(),
        U256::from_int(x.value()) == x,
{
    let b = half_base();
    assert(x.hi as int * b <= (b - 1) * b) by (nonlinear_arith)
        requires
            0 <= x.hi as int <= b - 1,
            b > 0,
    ;
    assert(0 <= x.hi as int * b) by (nonlinear_arith)
        requires
            0 <= x.hi as int,
            b > 0,
    ;
    assert((x.hi as int * b + x.lo as int) / b == x.hi as int && (x.hi as int * b + x.lo as int)
        % b == x.lo as int) by (nonlinear_arith)
        requires
            0 <= x.lo as int,
            (x.lo as int) < b,
            b > 0,
    ;
}

/// The word that stands for a number between `0` and `2^256 - 1` has that
/// number as its value.
pub proof fn lemma_from_int_value(v: int)
    requires
        0 <= v <= word_max(),
    ensures
        U256::from_int(v).value() == v,
{
    let b = half_base();
    assert(0 <= v / b < b && 0 <= v % b < b && (v / b) * b + v % b == v) by (nonlinear_arith)
        requires
            0 <= v <= b * b - 1,
            b > 0,
    ;
}

/// Adding a word and then subtracting it again, both modulo `2^256`, gives
/// back the word one started from; likewise in the other order.
pub proof fn lemma_wrapping_inverse(x: U256, y: U256)
    ensures
        wrapping_diff(wrapping_sum(x, y), y) == x,
        wrapping_sum(wrapping_diff(x, y), y) == x,
{
    lemma_value_bounds(x);
    lemma_value_bounds(y);
    let m = word_max() + 1;
    let s = (x.value() + y.value()) % m;
    let d = (x.value() - y.value()) % m;
    assert(0 <= s < m && (s == x.value() + y.value() || s == x.value() + y.value() - m))
        by (nonlinear_arith)
        requires
            0 <= x.value() + y.value() < 2 * m,
            s == (x.value() + y.value()) % m,
            m > 0,
    ;
    assert(0 <= d < m && (d == x.value() - y.value() || d == x.value() - y.value() + m))
        by (nonlinear_arith)
        requires
            -m < x.value() - y.value() < m,
            d == (x.value() - y.value()) % m,
            m > 0,
    ;
    lemma_from_int_value(s);
    lemma_from_int_value(d);
    assert((s - y.value()) % m == x.value()) by (nonlinear_arith)
        requires
            0 <= x.value() < m,
            s == x.value() + y.value() || s == x.value() + y.value() - m,
            m > 0,
    ;
    assert((d + y.value()) % m == x.value()) by (nonlinear_arith)
        requires
            0 <= x.value() < m,
            d == x.value() - y.value() || d == x.value() - y.value() + m,
            m > 0,
    ;
}

impl U256 {
    /// The number this word stands for.
    pub open spec fn value(self) -> int {
        self.hi as int * half_base() + self.lo as int
    }

    /// The word that stands for `v`, for `0 <= v < 2^256`.
    pub open spec fn from_int(v: int) -> U256 {
        U256 { hi: (v / half_base()) as u128, lo: (v % half_base()) as u128 }
    }

    pub open spec fn spec_zero() -> U256 {
        U256 { hi: 0, lo: 0 }
    }

    pub open spec fn spec_max_value() -> U256 {
        U256 { hi: u128::MAX, lo: u128::MAX }
    }

    /// The word `0`.
    #[verifier::when_used_as_spec(spec_zero)]
    pub fn zero() -> (r: U256)
        ensures
            r == Self::spec_zero(),
            r.value() == 0,
    {
        U256 { hi: 0, lo: 0 }
    }

    /// The word `2^256 - 1`.
    #[verifier::when_used_as_spec(spec_max_value)]
    pub fn max_value() -> (r: U256)
        ensures
            r == Self::spec_max_value(),
            r.value() == word_max(),
    {
        assert(u128::MAX as int * half_base() + u128::MAX as int == half_base() * half_base() - 1)
            by (nonlinear_arith);
        U256 { hi: u128::MAX, lo: u128::MAX }
    }

    /// The word that stands for `v`.
    pub fn from_u64(v: u64) -> (r: U256)
        ensures
            r.value() == v,
            r == (U256 { hi: 0, lo: v as u128 }),
    {
        U256 { hi: 0, lo: v as u128 }
    }

    /// The word that stands for `v`.
    pub fn from_u128(v: u128) -> (r: U256)
        ensures
            r.value() == v,
            r == (U256 { hi: 0, lo: v }),
    {
        U256 { hi: 0, lo: v }
    }

    pub open spec fn spec_is_zero(&self) -> bool {
        *self == Self::spec_zero()
    }

    #[verifier::when_used_as_spec(spec_is_zero)]
    pub fn is_zero(&self) -> (r: bool)
        ensures
            r == self.spec_is_zero(),
            r == (self.value() == 0),
    {
        proof {
            lemma_value_bounds(*self);
            lemma_value_bounds(U256::spec_zero());
        }
        self.hi == 0 && self.lo == 0
    }

    /// `self < other` as numbers.
    pub fn lt(&self, other: &U256) -> (r: bool)
        ensures
            r == (self.value() < other.value()),
    {
        proof {
            lemma_value_bounds(*self);
            lemma_value_bounds(*other);
            let b = half_base();
            if self.hi < other.hi {
                assert(self.hi as int * b + b <= other.hi as int * b) by (nonlinear_arith)
                    requires
                        self.hi as int + 1 <= other.hi as int,
                        b > 0,
                ;
            }
            if self.hi > other.hi {
                assert(other.hi as int * b + b <= self.hi as int * b) by (nonlinear_arith)
                    requires
                        other.hi as int + 1 <= self.hi as int,
                        b > 0,
                ;
            }
        }
        self.hi < other.hi || (self.hi == other.hi && self.lo < other.lo)
    }

    /// The sum, or `None` where it does not fit in 256 bits.
    pub fn checked_add(self, rhs: U256) -> (r: Option<U256>)
        ensures
            match r {
                Some(sum) => sum.value() == self.value() + rhs.value() && sum == wrapping_sum(
                    self,
                    rhs,
                ),
                None => self.value() + rhs.value() > word_max(),
            },
    {
        let (sum, carry) = self.overflowing_add(rhs);
        if carry {
            None
        } else {
            Some(sum)
        }
    }

    /// The sum modulo `2^256`, and whether the true sum was `2^256` or more.
    pub fn overflowing_add(self, rhs: U256) -> (r: (U256, bool))
        ensures
            r.0 == wrapping_sum(self, rhs),
            r.1 == (self.value() + rhs.value() > word_max()),
            !r.1 ==> r.0.value() == self.value() + rhs.value(),
            r.1 ==> r.0.value() == self.value() + rhs.value() - (word_max() + 1),
    {
        let lo_fits = self.lo <= u128::MAX - rhs.lo;
        let lo: u128 = if lo_fits {
            self.lo + rhs.lo
        } else {
            self.lo - (u128::MAX - rhs.lo) - 1
        };
        let carry_in: u128 = if lo_fits {
            0
        } else {
            1
        };
        let hi_fits = self.hi <= u128::MAX - rhs.hi;
        let hi_part: u128 = if hi_fits {
            self.hi + rhs.hi
        } else {
            self.hi - (u128::MAX - rhs.hi) - 1
        };
        let carry_fits = hi_part <= u128::MAX - carry_in;
        let hi: u128 = if carry_fits {
            hi_part + carry_in
        } else {
            0
        };
        let sum = U256 { hi, lo };
        let overflow = !hi_fits || !carry_fits;
        proof {
            let b = half_base();
            let m = word_max() + 1;
            let total = self.value() + rhs.value();
            lemma_value_bounds(self);
            lemma_value_bounds(rhs);
            lemma_value_bounds(sum);
            let k: int = if overflow {
                1
            } else {
                0
            };
            assert((self.hi as int + rhs.hi as int) * b == self.hi as int * b + rhs.hi as int * b)
                by (nonlinear_arith);
            assert(sum.value() == total - k * m) by (nonlinear_arith)
                requires
                    sum.value() == hi as int * b + lo as int,
                    total == (self.hi as int + rhs.hi as int) * b + self.lo as int + rhs.lo as int,
                    lo as int == self.lo as int + rhs.lo as int - carry_in as int * b,
                    hi as int == self.hi as int + rhs.hi as int + carry_in as int - k * b,
                    m == b * b,
            ;
            assert(total % m == sum.value()) by (nonlinear_arith)
                requires
                    sum.value() == total - k * m,
                    0 <= sum.value() < m,
                    k == 0 || k == 1,
                    m > 0,
            ;
        }
        (sum, overflow)
    }

    /// The sum modulo `2^256`.
    pub fn wrapping_add(self, rhs: U256) -> (r: U256)
        ensures
            r == wrapping_sum(self, rhs),
    {
        self.overflowing_add(rhs).0
    }

    /// The sum, or `2^256 - 1` where the sum does not fit.
    pub fn saturating_add(self, rhs: U256) -> (r: U256)
        ensures
            r == saturating_sum(self, rhs),
    {
        let (sum, carry) = self.overflowing_add(rhs);
        if carry {
            U256::max_value()
        } else {
            proof {
                lemma_value_bounds(sum);
            }
            sum
        }
    }

    /// The difference modulo `2^256`, and whether `rhs` was the larger.
    pub fn overflowing_sub(self, rhs: U256) -> (r: (U256, bool))
        ensures
            r.0 == wrapping_diff(self, rhs),
            r.1 == (self.value() < rhs.value()),
            !r.1 ==> r.0.value() == self.value() - rhs.value(),
    {
        let lo_borrow = self.lo < rhs.lo;
        let lo: u128 = if lo_borrow {
            u128::MAX - (rhs.lo - self.lo) + 1
        } else {
            self.lo - rhs.lo
        };
        let borrow_in: u128 = if lo_borrow {
            1
        } else {
            0
        };
        let hi_borrow = self.hi < rhs.hi;
        let hi_part: u128 = if hi_borrow {
            u128::MAX - (rhs.hi - self.hi) + 1
        } else {
            self.hi - rhs.hi
        };
        let second_borrow = hi_part < borrow_in;
        let hi: u128 = if second_borrow {
            u128::MAX
        } else {
            hi_part - borrow_in
        };
        let diff = U256 { hi, lo };
        let underflow = hi_borrow || second_borrow;
        proof {
            let b = half_base();
            let m = word_max() + 1;
            let total = self.value() - rhs.value();
            lemma_value_bounds(self);
            lemma_value_bounds(rhs);
            lemma_value_bounds(diff);
            let k: int = if underflow {
                1
            } else {
                0
            };
            assert((self.hi as int - rhs.hi as int) * b == self.hi as int * b - rhs.hi as int * b)
                by (nonlinear_arith);
            assert(diff.value() == total + k * m) by (nonlinear_arith)
                requires
                    diff.value() == hi as int * b + lo as int,
                    total == (self.hi as int - rhs.hi as int) * b + self.lo as int - rhs.lo as int,
                    lo as int == self.lo as int - rhs.lo as int + borrow_in as int * b,
                    hi as int == self.hi as int - rhs.hi as int - borrow_in as int + k * b,
                    m == b * b,
            ;
            assert(total % m == diff.value()) by (nonlinear_arith)
                requires
                    diff.value() == total + k * m,
                    0 <= diff.value() < m,
                    k == 0 || k == 1,
                    m > 0,
            ;
        }
        (diff, underflow)
    }

    /// The difference, or `None` where `rhs` is the larger.
    pub fn checked_sub(self, rhs: U256) -> (r: Option<U256>)
        ensures
            match r {
                Some(diff) => diff.value() == self.value() - rhs.value() && diff == wrapping_diff(
                    self,
                    rhs,
                ),
                None => self.value() < rhs.value(),
            },
    {
        let (diff, borrow) = self.overflowing_sub(rhs);
        if borrow {
            None
        } else {
            Some(diff)
        }
    }

    /// The difference modulo `2^256`.
    pub fn wrapping_sub(self, rhs: U256) -> (r: U256)
        ensures
            r == wrapping_diff(self, rhs),
    {
        self.overflowing_sub(rhs).0
    }

    /// The product of `a` and `b`, which always fits.
    pub fn from_product(a: u64, b: u128) -> (r: U256)
        ensures
            r.value() == a as int * b as int,
    {
        let low_digits: u128 = 0x1_0000_0000_0000_0000;
        let b_lo: u128 = b % low_digits;
        let b_hi: u128 = b / low_digits;
        let a_wide: u128 = a as u128;
        assert(a_wide * b_lo <= 0xffff_ffff_ffff_ffff * 0xffff_ffff_ffff_ffff) by (nonlinear_arith)
            requires
                a_wide <= 0xffff_ffff_ffff_ffff,
                b_lo <= 0xffff_ffff_ffff_ffff,
        ;
        assert(a_wide * b_hi <= 0xffff_ffff_ffff_ffff * 0xffff_ffff_ffff_ffff) by (nonlinear_arith)
            requires
                a_wide <= 0xffff_ffff_ffff_ffff,
                b_hi <= 0xffff_ffff_ffff_ffff,
        ;
        let low_product: u128 = a_wide * b_lo;
        let high_product: u128 = a_wide * b_hi;
        let middle: u128 = (high_product % low_digits) * low_digits;
        let carry: u128 = if middle > u128::MAX - low_product {
            1
        } else {
            0
        };
        let lo: u128 = if carry == 1 {
            middle - (u128::MAX - low_product) - 1
        } else {
            middle + low_product
        };
        let hi: u128 = high_product / low_digits + carry;
        proof {
            let base = half_base();
            let d = low_digits as int;
            assert(base == d * d) by (nonlinear_arith)
                requires
                    d == 0x1_0000_0000_0000_0000int,
                    base == 0xffff_ffff_ffff_ffff_ffff_ffff_ffff_ffffint + 1,
            ;
            assert(a as int * b as int
                == high_product as int * d + low_product as int) by (nonlinear_arith)
                requires
                    b as int == b_hi as int * d + b_lo as int,
                    low_product as int == a as int * b_lo as int,
                    high_product as int == a as int * b_hi as int,
            ;
            assert(hi as int * base + lo as int
                == high_product as int * d + low_product as int) by (nonlinear_arith)
                requires
                    base == d * d,
                    hi as int == high_product as int / d + carry as int,
                    lo as int == middle as int + low_product as int - carry as int * base,
                    middle as int == (high_product as int % d) * d,
                    high_product as int == (high_product as int / d) * d + high_product as int % d,
            ;
        }
        U256 { hi, lo }
    }

    /// The value as a `u64`, or `u64::MAX` where it does not fit.
    pub fn saturating_to_u64(&self) -> (r: u64)
        ensures
            r as int == if self.value() <= u64::MAX {
                self.value()
            } else {
                u64::MAX as int
            },
    {
        proof {
            lemma_value_bounds(*self);
            let b = half_base();
            if self.hi > 0 {
                assert(self.hi as int * b >= b) by (nonlinear_arith)
                    requires
                        self.hi as int >= 1,
                        b > 0,
                ;
            }
        }
        if self.hi == 0 && self.lo <= u64::MAX as u128 {
            self.lo as u64
        } else {
            u64::MAX
        }
    }

    /// The value as a `usize`, or `None` where it does not fit.
    pub fn checked_to_usize(&self) -> (r: Option<usize>)
        ensures
            match r {
                Some(v) => v as int == self.value(),
                None => self.value() > usize::MAX,
            },
    {
        proof {
            lemma_value_bounds(*self);
            let b = half_base();
            if self.hi > 0 {
                assert(self.hi as int * b >= b) by (nonlinear_arith)
                    requires
                        self.hi as int >= 1,
                        b > 0,
                ;
            }
        }
        if self.hi == 0 && self.lo <= usize::MAX as u128 {
            Some(self.lo as usize)
        } else {
            None
        }
    }
}

/// The sum of two words, capped at `2^256 - 1`.
pub open spec fn saturating_sum(lhs: U256, rhs: U256) -> U256 {
    if lhs.value() + rhs.value() > word_max() {
        U256::spec_max_value()
    } else {
        U256::from_int(lhs.value() + rhs.value())
    }
}

/// The 128-bit number whose big-endian digits are `bytes`: the first byte is
/// the most significant; digits beyond the sixteenth from the end fall away.
pub open spec fn be_u128(bytes: Seq<u8>) -> u128
    decreases bytes.len(),
{
    if bytes.len() == 0 {
        0
    } else {
        (be_u128(bytes.drop_last()) << 8) | (bytes.last() as u128)
    }
}

/// Digit `i` of `x` in base 256, counted from the least significant.
pub open spec fn digit_of(x: u128, i: int) -> u8 {
    ((x >> ((8 * i) as u128)) & 0xff) as u8
}

/// A 20-byte account identifier, kept as a 160-bit number.
#[derive(Clone, Copy, Debug, PartialEq, Eq, Structural, Hash)]
pub struct Address {
    /// Bits 128..160, the first four bytes.
    pub hi: u32,
    /// Bits 0..128, the last sixteen bytes.
    pub lo: u128,
}

impl Address {
    pub open spec fn spec_zero() -> Address {
        Address { hi: 0, lo: 0 }
    }

    /// The address of twenty zero bytes.
    #[verifier::when_used_as_spec(spec_zero)]
    pub fn zero() -> (r: Address)
        ensures
            r == Self::spec_zero(),
    {
        Address { hi: 0, lo: 0 }
    }

    pub open spec fn spec_is_zero(&self) -> bool {
        *self == Self::spec_zero()
    }

    #[verifier::when_used_as_spec(spec_is_zero)]
    pub fn is_zero(&self) -> (r: bool)
        ensures
            r == self.spec_is_zero(),
    {
        self.hi == 0 && self.lo == 0
    }

    pub open spec fn spec_from_word(word: U256) -> Address {
        Address { hi: (word.hi % 0x1_0000_0000) as u32, lo: word.lo }
    }

    /// The address in the low 160 bits of `word`; the top 96 bits fall away.
    #[verifier::when_used_as_spec(spec_from_word)]
    pub fn from_word(word: U256) -> (r: Address)
        ensures
            r == Self::spec_from_word(word),
    {
        Address { hi: (word.hi % 0x1_0000_0000) as u32, lo: word.lo }
    }

    pub open spec fn spec_into_word(self) -> U256 {
        U256 { hi: self.hi as u128, lo: self.lo }
    }

    /// The address as a 256-bit word, the top 96 bits zero.
    #[verifier::when_used_as_spec(spec_into_word)]
    pub fn into_word(self) -> (r: U256)
        ensures
            r == self.spec_into_word(),
            Address::spec_from_word(r) == self,
    {
        U256 { hi: self.hi as u128, lo: self.lo }
    }

    /// The twenty bytes of the address, first byte first.
    pub open spec fn be_bytes(self) -> Seq<u8> {
        Seq::new(
            20,
            |i: int|
                if i < 4 {
                    digit_of(self.hi as u128, 3 - i)
                } else {
                    digit_of(self.lo, 19 - i)
                },
        )
    }

    /// The twenty bytes of the address, first byte first.
    pub fn to_be_bytes(&self) -> (r: Vec<u8>)
        ensures
            r@ == self.be_bytes(),
    {
        let mut out: Vec<u8> = Vec::new();
        let mut i: usize = 0;
        while i < 20
            invariant
                i <= 20,
                out@.len() == i,
                forall|j: int| 0 <= j < i ==> out@[j] == #[trigger] self.be_bytes()[j],
            decreases 20 - i,
        {
            let byte: u8 = if i < 4 {
                (((self.hi as u128) >> ((8 * (3 - i)) as u128)) & 0xff) as u8
            } else {
                ((self.lo >> ((8 * (19 - i)) as u128)) & 0xff) as u8
            };
            out.push(byte);
            i = i + 1;
        }
        assert(out@ =~= self.be_bytes());
        out
    }
}

/// The first sixteen bytes of the Keccak-256 digest of no bytes.
pub const KECCAK_EMPTY_HI: u128 = 0xc5d2460186f7233c927e7db2dcc703c0;

/// The last sixteen bytes of the Keccak-256 digest of no bytes.
pub const KECCAK_EMPTY_LO: u128 = 0xe500b653ca82273b7bfad8045d85a470;

/// A 32-byte hash, kept as a 256-bit number read big-endian.
#[derive(Clone, Copy, Debug, PartialEq, Eq, Structural, Hash)]
pub struct B256 {
    /// The first sixteen bytes.
    pub hi: u128,
    /// The last sixteen bytes.
    pub lo: u128,
}

impl B256 {
    pub open spec fn spec_zero() -> B256 {
        B256 { hi: 0, lo: 0 }
    }

    /// The hash of thirty-two zero bytes.
    #[verifier::when_used_as_spec(spec_zero)]
    pub fn zero() -> (r: B256)
        ensures
            r == Self::spec_zero(),
    {
        B256 { hi: 0, lo: 0 }
    }

    pub open spec fn spec_is_zero(&self) -> bool {
        *self == Self::spec_zero()
    }

    #[verifier::when_used_as_spec(spec_is_zero)]
    pub fn is_zero(&self) -> (r: bool)
        ensures
            r == self.spec_is_zero(),
    {
        self.hi == 0 && self.lo == 0
    }

    pub open spec fn spec_keccak_empty() -> B256 {
        B256 { hi: KECCAK_EMPTY_HI, lo: KECCAK_EMPTY_LO }
    }

    /// The hash that marks an account without code.
    #[verifier::when_used_as_spec(spec_keccak_empty)]
    pub fn keccak_empty() -> (r: B256)
        ensures
            r == Self::spec_keccak_empty(),
    {
        B256 { hi: KECCAK_EMPTY_HI, lo: KECCAK_EMPTY_LO }
    }

    /// The hash whose thirty-two bytes are `bytes`.
    pub open spec fn from_be_bytes_spec(bytes: Seq<u8>) -> B256 {
        B256 { hi: be_u128(bytes.subrange(0, 16)), lo: be_u128(bytes.subrange(16, 32)) }
    }

    /// The hash whose thirty-two bytes are `bytes`.
    pub fn from_be_bytes(bytes: &[u8; 32]) -> (r: B256)
        ensures
            r == Self::from_be_bytes_spec(bytes@),
    {
        B256 { hi: read_be_u128(bytes, 0), lo: read_be_u128(bytes, 16) }
    }
}

fn read_be_u128(bytes: &[u8; 32], start: usize) -> (r: u128)
    requires
        start + 16 <= 32,
    ensures
        r == be_u128(bytes@.subrange(start as int, start + 16)),
{
    let mut acc: u128 = 0;
    let mut i: usize = 0;
    while i < 16
        invariant
            i <= 16,
            start + 16 <= 32,
            acc == be_u128(bytes@.subrange(start as int, start + i)),
        decreases 16 - i,
    {
        proof {
            let next = bytes@.subrange(start as int, start + i + 1);
            assert(next.drop_last() =~= bytes@.subrange(start as int, start + i));
            assert(next.last() == bytes@[start + i]);
        }
        acc = (acc << 8) | (bytes[start + i] as u128);
        i = i + 1;
    }
    acc
}

/// A copy of `bytes`.
pub fn copy_bytes(bytes: &Vec<u8>) -> (r: Vec<u8>)
    ensures
        r@ == bytes@,
{
    let mut out: Vec<u8> = Vec::new();
    let mut i: usize = 0;
    while i < bytes.len()
        invariant
            i <= bytes.len(),
            out@ == bytes@.subrange(0, i as int),
        decreases bytes.len() - i,
    {
        out.push(bytes[i]);
        assert(out@ =~= bytes@.subrange(0, i + 1));
        i = i + 1;
    }
    assert(out@ =~= bytes@);
    out
}

/// The thirty-two bytes that `revm_primitives::keccak256` returns for
/// `input`: its Keccak-256 digest. Nothing is claimed of them beyond their
/// being a function of the input bytes.
pub uninterp spec fn keccak256_bytes(input: Seq<u8>) -> Seq<u8>;

/// Calls `revm_primitives::keccak256` and hands back the thirty-two bytes of
/// its result. The contract only gives those bytes their name,
/// [`keccak256_bytes`].
#[verifier::external_body]
fn keccak256_raw(input: &[u8]) -> (digest: [u8; 32])
    ensures
        digest@ == keccak256_bytes(input@),
{
    revm_primitives::keccak256(input).0
}

/// The Keccak-256 hash of `input`.
pub fn keccak256(input: &[u8]) -> (r: B256)
    ensures
        r == B256::from_be_bytes_spec(keccak256_bytes(input@)),
{
    let digest = keccak256_raw(input);
    B256::from_be_bytes(&digest)
}

/// Makes `revm_primitives::Log` known as a type whose values are carried
/// along and never looked into.
#[verifier::external_type_specification]
#[verifier::external_body]
#[verifier::reject_recursive_types(T)]
pub struct ExLog<T>(revm_primitives::Log<T>);

/// Makes `revm_primitives::LogData`, the payload of a log, known as a type
/// whose values are carried along and never looked into.
#[verifier::external_type_specification]
#[verifier::external_body]
pub struct ExLogData(revm_primitives::LogData);

/// A log record that a contract emitted. The journal keeps such records in
/// order and never looks inside one.
pub type EvmLog = revm_primitives::Log;

/// Hard forks in the order in which they were activated.
#[allow(non_camel_case_types)]
#[derive(Clone, Copy, Debug, PartialEq, Eq, Structural, Hash)]
pub enum SpecId {
    FRONTIER,
    FRONTIER_THAWING,
    HOMESTEAD,
    DAO_FORK,
    TANGERINE,
    SPURIOUS_DRAGON,
    BYZANTIUM,
    CONSTANTINOPLE,
    PETERSBURG,
    ISTANBUL,
    MUIR_GLACIER,
    BERLIN,
    LONDON,
    ARROW_GLACIER,
    GRAY_GLACIER,
    MERGE,
    SHANGHAI,
    CANCUN,
    PRAGUE,
    OSAKA,
}

impl SpecId {
    /// The position of the fork in activation order, `FRONTIER` being 0.
    pub open spec fn spec_rank(self) -> u8 {
        match self {
            SpecId::FRONTIER => 0,
            SpecId::FRONTIER_THAWING => 1,
            SpecId::HOMESTEAD => 2,
            SpecId::DAO_FORK => 3,
            SpecId::TANGERINE => 4,
            SpecId::SPURIOUS_DRAGON => 5,
            SpecId::BYZANTIUM => 6,
            SpecId::CONSTANTINOPLE => 7,
            SpecId::PETERSBURG => 8,
            SpecId::ISTANBUL => 9,
            SpecId::MUIR_GLACIER => 10,
            SpecId::BERLIN => 11,
            SpecId::LONDON => 12,
            SpecId::ARROW_GLACIER => 13,
            SpecId::GRAY_GLACIER => 14,
            SpecId::MERGE => 15,
            SpecId::SHANGHAI => 16,
            SpecId::CANCUN => 17,
            SpecId::PRAGUE => 18,
            SpecId::OSAKA => 19,
        }
    }

    /// The position of the fork in activation order, `FRONTIER` being 0.
    #[verifier::when_used_as_spec(spec_rank)]
    pub fn rank(self) -> (r: u8)
        ensures
            r == self.spec_rank(),
    {
        match self {
            SpecId::FRONTIER => 0,
            SpecId::FRONTIER_THAWING => 1,
            SpecId::HOMESTEAD => 2,
            SpecId::DAO_FORK => 3,
            SpecId::TANGERINE => 4,
            SpecId::SPURIOUS_DRAGON => 5,
            SpecId::BYZANTIUM => 6,
            SpecId::CONSTANTINOPLE => 7,
            SpecId::PETERSBURG => 8,
            SpecId::ISTANBUL => 9,
            SpecId::MUIR_GLACIER => 10,
            SpecId::BERLIN => 11,
            SpecId::LONDON => 12,
            SpecId::ARROW_GLACIER => 13,
            SpecId::GRAY_GLACIER => 14,
            SpecId::MERGE => 15,
            SpecId::SHANGHAI => 16,
            SpecId::CANCUN => 17,
            SpecId::PRAGUE => 18,
            SpecId::OSAKA => 19,
        }
    }

    pub open spec fn spec_is_enabled_in(self, other: SpecId) -> bool {
        self.spec_rank() >= other.spec_rank()
    }

    /// Whether the rules that `other` introduced are in force under `self`:
    /// `self` is `other` or a later fork.
    #[verifier::when_used_as_spec(spec_is_enabled_in)]
    pub fn is_enabled_in(self, other: SpecId) -> (r: bool)
        ensures
            r == self.spec_is_enabled_in(other),
    {
        self.rank() >= other.rank()
    }
}

impl Default for SpecId {
    fn default() -> (r: SpecId)
        ensures
            r == SpecId::PRAGUE,
    {
        SpecId::PRAGUE
    }
}

/// A rule set that is in force under a fork is in force under every later
/// fork, and every fork has its own rules in force.
pub proof fn lemma_is_enabled_in_monotone(earlier: SpecId, later: SpecId, rules: SpecId)
    requires
        later.is_enabled_in(earlier),
        earlier.is_enabled_in(rules),
    ensures
        later.is_enabled_in(rules),
        rules.is_enabled_in(rules),
        rules.is_enabled_in(SpecId::FRONTIER),
{
}

} // verus!

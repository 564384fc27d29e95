//! Field elements of the Stark curve and 256-bit integers.
use vstd::prelude::*;
use vstd::string::*;
use crate::digits::{all_digits, digit, digits_of, is_digit, value_monotone, value_of};
use crate::text::{chars_of, has_prefix};

verus! {

/// Two to the power of 128.
pub open spec fn two_pow_128() -> nat {
    (u128::MAX + 1) as nat
}

/// The order of the field: 2^251 + 17 * 2^192 + 1.
pub open spec fn prime() -> nat {
    wide(0x0800_0000_0000_0011_0000_0000_0000_0000, 1)
}

/// The number with the upper part `hi` and the lower 128 bits `lo`.
pub open spec fn wide(hi: nat, lo: nat) -> nat {
    hi * two_pow_128() + lo
}

/// Numbers are ordered by their upper part first.
pub proof fn wide_order(a: nat, b: nat, c: nat, d: nat)
    requires
        b < two_pow_128(),
        d < two_pow_128(),
    ensures
        wide(a, b) < wide(c, d) <==> (a < c || (a == c && b < d)),
        wide(a, b) == wide(c, d) <==> (a == c && b == d),
{
    let w = two_pow_128();
    if a < c {
        assert(a * w + w <= c * w) by (nonlinear_arith)
            requires
                a + 1 <= c,
        ;
    } else if c < a {
        assert(c * w + w <= a * w) by (nonlinear_arith)
            requires
                c + 1 <= a,
        ;
    }
}

/// Sixteen to the power of 32 is two to the power of 128.
pub proof fn sixteen_to_32()
    ensures
        vstd::arithmetic::power::pow(16, 32) == two_pow_128(),
{
    let q = vstd::arithmetic::power::pow(16, 16);
    let h = vstd::arithmetic::power::pow(16, 32);
    assert(q == 0x1_0000_0000_0000_0000) by {
        reveal(vstd::arithmetic::power::pow);
        reveal_with_fuel(vstd::arithmetic::power::pow, 17);
    }
    vstd::arithmetic::power::lemma_pow_adds(16, 16, 16);
    assert(h == 0x1_0000_0000_0000_0000 * 0x1_0000_0000_0000_0000);
    assert(h == two_pow_128()) by (nonlinear_arith)
        requires
            h == 0x1_0000_0000_0000_0000 * 0x1_0000_0000_0000_0000,
            two_pow_128() == u128::MAX + 1,
    ;
}

/// The order of the field is not above sixteen to the power of 64.
pub proof fn sixteen_to_64()
    ensures
        prime() <= vstd::arithmetic::power::pow(16, 64),
{
    sixteen_to_32();
    vstd::arithmetic::power::lemma_pow_adds(16, 32, 32);
    wide_order(0x0800_0000_0000_0011_0000_0000_0000_0000, 1, two_pow_128(), 0);
}

/// A field element, by the two halves of its value.
#[derive(Clone, Copy, Debug, PartialEq, Eq, Hash, Structural)]
pub struct Felt {
    /// The upper 128 bits.
    pub hi: u128,
    /// The lower 128 bits.
    pub lo: u128,
}

impl Felt {
    /// The number that the element stands for.
    pub open spec fn value(self) -> nat {
        wide(self.hi as nat, self.lo as nat)
    }

    /// The value is below the order of the field.
    pub open spec fn wf(self) -> bool {
        self.value() < prime()
    }

    /// The element of a machine integer.
    pub fn from_u128(v: u128) -> (r: Felt)
        ensures
            r.value() == v,
            r.wf(),
    {
        proof {
            wide_order(0, v as nat, 0x0800_0000_0000_0011_0000_0000_0000_0000, 1);
        }
        Felt { hi: 0, lo: v }
    }

    /// The zero element.
    pub fn zero() -> (r: Felt)
        ensures
            r.value() == 0,
            r == (Felt { hi: 0, lo: 0 }),
            r.wf(),
    {
        proof {
            wide_order(0, 0, 0x0800_0000_0000_0011_0000_0000_0000_0000, 1);
        }
        Felt { hi: 0, lo: 0 }
    }

    /// Whether the element is zero.
    pub fn is_zero(&self) -> (r: bool)
        ensures
            r == (self.value() == 0),
    {
        proof {
            wide_order(self.hi as nat, self.lo as nat, 0, 0);
        }
        self.hi == 0 && self.lo == 0
    }

    /// Whether the value is below the order of the field.
    pub fn is_valid(&self) -> (r: bool)
        ensures
            r == self.wf(),
    {
        let top: u128 = 0x0800_0000_0000_0011_0000_0000_0000_0000;
        proof {
            wide_order(self.hi as nat, self.lo as nat, top as nat, 1);
        }
        self.hi < top || (self.hi == top && self.lo < 1)
    }
}

/// Two to the power of 256.
pub open spec fn two_pow_256() -> nat {
    wide(two_pow_128(), 0)
}

/// The digits of a decimal text, without the minus sign before them.
pub open spec fn unsigned_part(s: Seq<char>) -> Seq<char> {
    if s.len() > 0 && s[0] == '-' {
        s.skip(1)
    } else {
        s
    }
}

/// Whether `s` is a decimal number, with or without a minus sign, of at most 256 bits.
pub open spec fn is_decimal_256(s: Seq<char>) -> bool {
    let d = unsigned_part(s);
    d.len() > 0 && all_digits(d, 10) && value_of(d, 10) < two_pow_256()
}

/// The value of the element that `s` writes: hexadecimal after `0x`, of at most 64 digits and not
/// above the order of the field, or decimal, of at most 256 bits and taken modulo that order.
pub open spec fn felt_parsed(s: Seq<char>) -> Option<nat> {
    if has_prefix(s, seq!['0', 'x']) {
        let d = s.skip(2);
        if 1 <= d.len() <= 64 && all_digits(d, 16) && value_of(d, 16) <= prime() {
            Some(value_of(d, 16) % prime())
        } else {
            None
        }
    } else if is_decimal_256(s) {
        let v = value_of(unsigned_part(s), 10) % prime();
        if s[0] == '-' {
            Some(((prime() - v) % prime() as int) as nat)
        } else {
            Some(v)
        }
    } else {
        None
    }
}

/// `starknet::core::types::Felt::from_str` reads hexadecimal text after `0x`, which it refuses when
/// empty, longer than 64 digits or above the order of the field, and otherwise decimal text, which
/// it takes modulo that order. Decimal text that is not a number of at most 256 bits is left out.
#[verifier::external_body]
fn outer_from_str(s: &str) -> (r: Option<Felt>)
    requires
        has_prefix(s@, seq!['0', 'x']) || is_decimal_256(s@),
    ensures
        match r {
            Some(f) => f.wf() && felt_parsed(s@) == Some(f.value()),
            None => felt_parsed(s@) is None,
        },
{
    match <starknet::core::types::Felt as std::str::FromStr>::from_str(s) {
        Ok(f) => {
            let b = f.to_bytes_be();
            let mut hi = [0u8; 16];
            let mut lo = [0u8; 16];
            hi.copy_from_slice(&b[..16]);
            lo.copy_from_slice(&b[16..]);
            Some(Felt { hi: u128::from_be_bytes(hi), lo: u128::from_be_bytes(lo) })
        },
        Err(_) => None,
    }
}

/// `LowerHex` of `starknet::core::types::Felt` writes the shortest lower-case hexadecimal digits of
/// the value.
#[verifier::external_body]
fn outer_lower_hex(f: &Felt) -> (r: String)
    requires
        f.wf(),
    ensures
        r@ == digits_of(f.value(), 16),
{
    let mut b = [0u8; 32];
    b[..16].copy_from_slice(&f.hi.to_be_bytes());
    b[16..].copy_from_slice(&f.lo.to_be_bytes());
    format!("{:x}", starknet::core::types::Felt::from_bytes_be(&b))
}

/// The value of the element that `s` writes in hexadecimal, with or without `0x` before the digits:
/// at most 64 digits, not above the order of the field.
pub open spec fn felt_from_hex(s: Seq<char>) -> Option<nat> {
    let d = if s.len() > 2 && s[0] == '0' && s[1] == 'x' {
        s.skip(2)
    } else {
        s
    };
    if 1 <= d.len() <= 64 && all_digits(d, 16) && value_of(d, 16) <= prime() {
        Some(value_of(d, 16) % prime())
    } else {
        None
    }
}

/// `starknet::core::types::Felt::from_hex` reads hexadecimal text, with or without `0x`, which it
/// refuses when empty, longer than 64 digits or above the order of the field.
#[verifier::external_body]
fn outer_from_hex(s: &str) -> (r: Option<Felt>)
    ensures
        match r {
            Some(f) => f.wf() && felt_from_hex(s@) == Some(f.value()),
            None => felt_from_hex(s@) is None,
        },
{
    match starknet::core::types::Felt::from_hex(s) {
        Ok(f) => {
            let b = f.to_bytes_be();
            let mut hi = [0u8; 16];
            let mut lo = [0u8; 16];
            hi.copy_from_slice(&b[..16]);
            lo.copy_from_slice(&b[16..]);
            Some(Felt { hi: u128::from_be_bytes(hi), lo: u128::from_be_bytes(lo) })
        },
        Err(_) => None,
    }
}

/// Ten times `lo` and `d` more, by its upper and its lower part.
fn ten_times(lo: u128, d: u128) -> (r: (u128, u128))
    requires
        d < 10,
    ensures
        wide(r.0 as nat, r.1 as nat) == lo as nat * 10 + d as nat,
        r.0 <= 10,
{
    let w: u128 = 0x1_0000_0000_0000_0000;
    let a: u128 = lo / w;
    let b: u128 = lo % w;
    let t0: u128 = b * 10 + d;
    let t1: u128 = a * 10 + t0 / w;
    let c: u128 = t1 / w;
    let e: u128 = t1 % w;
    proof {
        assert(lo == a * w + b && b < w) by (nonlinear_arith)
            requires
                a == lo / w,
                b == lo % w,
                w == 0x1_0000_0000_0000_0000,
        ;
        assert(t1 == c * w + e && e < w) by (nonlinear_arith)
            requires
                c == t1 / w,
                e == t1 % w,
                w == 0x1_0000_0000_0000_0000,
        ;
        assert(e * w + t0 % w <= u128::MAX) by (nonlinear_arith)
            requires
                e < w,
                w == 0x1_0000_0000_0000_0000,
        ;
        assert(t0 == (t0 / w) * w + t0 % w) by (nonlinear_arith)
            requires
                w == 0x1_0000_0000_0000_0000,
        ;
        assert(c as nat * two_pow_128() + (e * w + t0 % w) == lo as nat * 10 + d as nat)
            by (nonlinear_arith)
            requires
                two_pow_128() == w * w,
                lo == a * w + b,
                t0 == b * 10 + d,
                t0 == (t0 / w) * w + t0 % w,
                t1 == a * 10 + t0 / w,
                t1 == c * w + e,
        ;
    }
    let low: u128 = e * w + t0 % w;
    (c, low)
}

/// Whether `s` is a decimal number, with or without a minus sign, of at most 256 bits.
fn decimal_256(s: &str) -> (r: bool)
    ensures
        r == is_decimal_256(s@),
{
    let cs = chars_of(s);
    let from: usize = if cs.len() > 0 && cs[0] == '-' {
        1
    } else {
        0
    };
    let ghost t = unsigned_part(s@);
    proof {
        assert(s@.skip(0) =~= s@);
        assert(t.take(0) =~= Seq::<char>::empty());
    }
    if from == cs.len() {
        return false;
    }
    let mut hi: u128 = 0;
    let mut lo: u128 = 0;
    let mut i: usize = from;
    while i < cs.len()
        invariant
            from <= i <= cs@.len(),
            from <= 1,
            cs@ == s@,
            t == s@.skip(from as int),
            t == unsigned_part(s@),
            all_digits(t.take(i - from), 10),
            value_of(t.take(i - from), 10) == wide(hi as nat, lo as nat),
        decreases cs@.len() - i,
    {
        let d = match digit(cs[i]) {
            Some(d) if d < 10 => d,
            _ => {
                proof {
                    assert(!is_digit(t[i - from], 10));
                }
                return false;
            },
        };
        proof {
            let a = t.take(i - from);
            let b = t.take(i - from + 1);
            assert(b.drop_last() =~= a);
            assert(b.last() == cs@[i as int]);
            assert forall|k: int| 0 <= k < b.len() implies is_digit(#[trigger] b[k], 10) by {
                if k < a.len() {
                    assert(a[k] == b[k]);
                }
            }
            value_monotone(t, i - from + 1, 10);
        }
        let (carry, low) = ten_times(lo, d as u128);
        proof {
            let top = (hi as nat * 10 + carry as nat) as nat;
            let w = two_pow_128();
            assert(wide(top, low as nat) == wide(hi as nat, lo as nat) * 10 + d as nat)
                by (nonlinear_arith)
                requires
                    top == hi as nat * 10 + carry as nat,
                    wide(top, low as nat) == top * w + low as nat,
                    wide(hi as nat, lo as nat) == hi as nat * w + lo as nat,
                    carry as nat * w + low as nat == lo as nat * 10 + d as nat,
            ;
            wide_order(top, low as nat, w, 0);
        }
        if hi > 0x1999_9999_9999_9999_9999_9999_9999_9999 {
            return false;
        }
        match (hi * 10).checked_add(carry) {
            Some(h) => {
                hi = h;
                lo = low;
            },
            None => {
                return false;
            },
        }
        i = i + 1;
    }
    proof {
        assert(t.take(cs@.len() - from) =~= t);
        wide_order(hi as nat, lo as nat, two_pow_128(), 0);
    }
    true
}

impl Felt {
    /// The element that `s` writes in hexadecimal after `0x`, or in decimal.
    pub fn from_str(s: &str) -> (r: Option<Felt>)
        ensures
            match r {
                Some(f) => f.wf() && felt_parsed(s@) == Some(f.value()),
                None => felt_parsed(s@) is None,
            },
    {
        let cs = chars_of(s);
        let hex = cs.len() >= 2 && cs[0] == '0' && cs[1] == 'x';
        proof {
            if hex {
                assert(s@.take(2) =~= seq!['0', 'x']);
            } else if has_prefix(s@, seq!['0', 'x']) {
                assert(s@.take(2)[0] == s@[0]);
                assert(s@.take(2)[1] == s@[1]);
            }
        }
        if hex || decimal_256(s) {
            outer_from_str(s)
        } else {
            None
        }
    }

    /// The element that `s` writes in hexadecimal, with or without `0x`.
    pub fn from_hex(s: &str) -> (r: Option<Felt>)
        ensures
            match r {
                Some(f) => f.wf() && felt_from_hex(s@) == Some(f.value()),
                None => felt_from_hex(s@) is None,
            },
    {
        outer_from_hex(s)
    }

    /// The shortest lower-case hexadecimal digits of the value, without a prefix.
    pub fn hex_digits(&self) -> (r: String)
        requires
            self.wf(),
        ensures
            r@ == digits_of(self.value(), 16),
    {
        outer_lower_hex(self)
    }
}

/// Two elements of the same value are equal.
pub proof fn felt_by_value(a: Felt, b: Felt)
    requires
        a.value() == b.value(),
    ensures
        a == b,
{
    wide_order(a.hi as nat, a.lo as nat, b.hi as nat, b.lo as nat);
}

} // verus!

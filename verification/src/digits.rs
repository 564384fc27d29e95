//! Numbers written in digits: decimal and hexadecimal text.
use vstd::prelude::*;
use vstd::string::*;
use crate::text::chars_of;

verus! {

/// The number a digit stands for, in hexadecimal or a smaller radix.
pub open spec fn digit_value(c: char) -> Option<nat> {
    if '0' <= c && c <= '9' {
        Some((c as u32 - '0' as u32) as nat)
    } else if 'a' <= c && c <= 'f' {
        Some((c as u32 - 'a' as u32 + 10) as nat)
    } else if 'A' <= c && c <= 'F' {
        Some((c as u32 - 'A' as u32 + 10) as nat)
    } else {
        None
    }
}

/// Whether `c` is a digit of the radix.
pub open spec fn is_digit(c: char, radix: nat) -> bool {
    digit_value(c) is Some && digit_value(c)->0 < radix
}

/// Whether all of `s` are digits of the radix.
pub open spec fn all_digits(s: Seq<char>, radix: nat) -> bool {
    forall|i: int| 0 <= i < s.len() ==> is_digit(#[trigger] s[i], radix)
}

/// The number that the digits `s` write in the radix.
pub open spec fn value_of(s: Seq<char>, radix: nat) -> nat
    decreases s.len(),
{
    if s.len() == 0 {
        0
    } else {
        value_of(s.drop_last(), radix) * radix + digit_value(s.last())->0
    }
}

/// The number that `s` writes: digits of the radix, at least one, after an optional plus sign.
pub open spec fn parsed(s: Seq<char>, radix: nat) -> Option<nat> {
    let digits = if s.len() > 0 && s[0] == '+' {
        s.skip(1)
    } else {
        s
    };
    if digits.len() > 0 && all_digits(digits, radix) {
        Some(value_of(digits, radix))
    } else {
        None
    }
}

/// The digit that stands for `d`, a number below sixteen.
pub open spec fn digit_char(d: nat) -> char {
    if d < 10 {
        (d + '0' as u32) as char
    } else {
        (d - 10 + 'a' as u32) as char
    }
}

/// The shortest digits, in lower case, that write `v` in the radix.
pub open spec fn digits_of(v: nat, radix: nat) -> Seq<char>
    decreases v,
    via digits_of_decreases
{
    if radix < 2 || v < radix {
        seq![digit_char(v)]
    } else {
        digits_of(v / radix, radix).push(digit_char(v % radix))
    }
}

#[via_fn]
proof fn digits_of_decreases(v: nat, radix: nat) {
    if !(radix < 2 || v < radix) {
        assert(v / radix < v) by (nonlinear_arith)
            requires
                v >= radix,
                radix >= 2,
        ;
    }
}

/// `s` with zeros put before it up to a length of `width`.
pub open spec fn zero_padded(s: Seq<char>, width: nat) -> Seq<char> {
    if s.len() < width {
        Seq::new((width - s.len()) as nat, |i: int| '0') + s
    } else {
        s
    }
}

/// The value of a longer run of digits is not smaller.
pub proof fn value_monotone(s: Seq<char>, n: int, radix: nat)
    requires
        0 <= n <= s.len(),
        radix >= 1,
    ensures
        value_of(s.take(n), radix) <= value_of(s, radix),
    decreases s.len(),
{
    if n == s.len() {
        assert(s.take(n) =~= s);
    } else {
        value_monotone(s.drop_last(), n, radix);
        assert(s.drop_last().take(n) =~= s.take(n));
        let v = value_of(s.drop_last(), radix);
        assert(v * radix >= v) by (nonlinear_arith)
            requires
                radix >= 1,
        ;
    }
}

/// The value of two runs of digits, one after the other.
pub proof fn value_of_concat(a: Seq<char>, b: Seq<char>, radix: nat)
    ensures
        value_of(a + b, radix) == value_of(a, radix) * vstd::arithmetic::power::pow(
            radix as int,
            b.len(),
        ) + value_of(b, radix),
    decreases b.len(),
{
    reveal(vstd::arithmetic::power::pow);
    if b.len() == 0 {
        assert(a + b =~= a);
        assert(vstd::arithmetic::power::pow(radix as int, 0) == 1);
    } else {
        let t = b.drop_last();
        value_of_concat(a, t, radix);
        assert((a + b).drop_last() =~= a + t);
        assert((a + b).last() == b.last());
        let p = vstd::arithmetic::power::pow(radix as int, t.len());
        let v = value_of(a, radix) as int;
        let w = value_of(t, radix) as int;
        assert((v * p + w) * radix == v * (radix * p) + w * radix) by (nonlinear_arith);
    }
}

/// A run of digits writes a number below the power of the radix to its length.
pub proof fn value_bounded(s: Seq<char>, radix: nat)
    requires
        all_digits(s, radix),
    ensures
        value_of(s, radix) < vstd::arithmetic::power::pow(radix as int, s.len()),
    decreases s.len(),
{
    reveal(vstd::arithmetic::power::pow);
    if s.len() > 0 {
        let t = s.drop_last();
        assert forall|i: int| 0 <= i < t.len() implies is_digit(#[trigger] t[i], radix) by {
            assert(s[i] == t[i]);
        }
        value_bounded(t, radix);
        assert(is_digit(s[s.len() - 1], radix));
        let p = vstd::arithmetic::power::pow(radix as int, t.len());
        let v = value_of(t, radix) as int;
        let d = digit_value(s.last())->0 as int;
        assert(v * radix + d < radix * p) by (nonlinear_arith)
            requires
                v + 1 <= p,
                d < radix,
        ;
    }
}

/// Leading zeros do not change the value.
pub proof fn value_of_padded(s: Seq<char>, zeros: nat, radix: nat)
    ensures
        value_of(Seq::new(zeros, |i: int| '0') + s, radix) == value_of(s, radix),
    decreases s.len() + zeros,
{
    let z = Seq::new(zeros, |i: int| '0');
    let whole = z + s;
    if s.len() > 0 {
        value_of_padded(s.drop_last(), zeros, radix);
        assert(whole.drop_last() =~= z + s.drop_last());
    } else if zeros > 0 {
        let y = Seq::new((zeros - 1) as nat, |i: int| '0');
        value_of_padded(s, (zeros - 1) as nat, radix);
        assert(whole.drop_last() =~= y + s);
        assert(whole.last() == '0');
        assert(value_of(y + s, radix) == 0);
        assert(0 * radix == 0) by (nonlinear_arith);
    } else {
        assert(whole =~= s);
    }
}

/// The digits of a number are digits of the radix and write that number.
pub proof fn digits_write_value(v: nat, radix: nat)
    requires
        2 <= radix <= 16,
    ensures
        all_digits(digits_of(v, radix), radix),
        value_of(digits_of(v, radix), radix) == v,
        digits_of(v, radix).len() >= 1,
    decreases v,
{
    if v < radix {
        let s = seq![digit_char(v)];
        assert(s.drop_last() =~= Seq::<char>::empty());
        assert(value_of(s.drop_last(), radix) == 0);
        assert(0 * radix == 0) by (nonlinear_arith);
    } else {
        assert(v / radix < v && v % radix < radix && v == (v / radix) * radix + v % radix)
            by (nonlinear_arith)
            requires
                v >= radix,
                radix >= 2,
        ;
        digits_write_value(v / radix, radix);
        let t = digits_of(v / radix, radix);
        let s = t.push(digit_char(v % radix));
        assert(s.drop_last() =~= t);
        assert forall|i: int| 0 <= i < s.len() implies is_digit(#[trigger] s[i], radix) by {
            if i < t.len() {
                assert(s[i] == t[i]);
            }
        }
    }
}

/// A number below a power of the radix has no more digits than the exponent.
pub proof fn digits_len(v: nat, radix: nat, n: nat)
    requires
        2 <= radix <= 16,
        n >= 1,
        v < vstd::arithmetic::power::pow(radix as int, n),
    ensures
        digits_of(v, radix).len() <= n,
    decreases n,
{
    reveal(vstd::arithmetic::power::pow);
    if v >= radix {
        if n == 1 {
            vstd::arithmetic::power::lemma_pow1(radix as int);
        }
        let p = vstd::arithmetic::power::pow(radix as int, (n - 1) as nat);
        assert(v / radix < p) by (nonlinear_arith)
            requires
                v < radix * p,
                radix >= 2,
        ;
        digits_len(v / radix, radix, (n - 1) as nat);
    }
}

/// The digits of a number in a radix of at most sixteen are no punctuation.
pub proof fn digits_are_plain(v: nat, radix: nat)
    requires
        2 <= radix <= 16,
    ensures
        !digits_of(v, radix).contains(':'),
        !digits_of(v, radix).contains('x'),
        !digits_of(v, radix).contains('+'),
        !digits_of(v, radix).contains('-'),
{
    digits_write_value(v, radix);
    let s = digits_of(v, radix);
    assert forall|i: int| 0 <= i < s.len() implies s[i] != ':' && s[i] != 'x' && s[i] != '+' && s[i]
        != '-' by {
        assert(is_digit(s[i], radix));
    }
}

/// What `parsed` reads out of padded digits is the number they were made from.
pub proof fn parse_of_digits(v: nat, radix: nat, width: nat)
    requires
        2 <= radix <= 16,
    ensures
        parsed(zero_padded(digits_of(v, radix), width), radix) == Some(v),
{
    let d = digits_of(v, radix);
    let s = zero_padded(d, width);
    digits_write_value(v, radix);
    digits_are_plain(v, radix);
    let k = if d.len() < width {
        (width - d.len()) as nat
    } else {
        0
    };
    let z = Seq::new(k, |i: int| '0');
    assert(s =~= z + d);
    value_of_padded(d, k, radix);
    assert forall|i: int| 0 <= i < s.len() implies is_digit(#[trigger] s[i], radix) by {
        if i >= k {
            assert(s[i] == d[i - k]);
        }
    }
    assert(is_digit(s[0], radix));
}

/// The number a digit stands for.
pub fn digit(c: char) -> (r: Option<u32>)
    ensures
        match r {
            Some(d) => digit_value(c) == Some(d as nat) && d < 16,
            None => digit_value(c) is None,
        },
{
    let n: u32 = c as u32;
    if '0' <= c && c <= '9' {
        Some(n - 48)
    } else if 'a' <= c && c <= 'f' {
        Some(n - 97 + 10)
    } else if 'A' <= c && c <= 'F' {
        Some(n - 65 + 10)
    } else {
        None
    }
}

/// The number that `s` writes in the radix, where it fits: what `u128::from_str_radix` gives.
pub fn parse_u128(s: &str, radix: u32) -> (r: Option<u128>)
    requires
        2 <= radix <= 16,
    ensures
        match r {
            Some(v) => parsed(s@, radix as nat) == Some(v as nat),
            None => parsed(s@, radix as nat) is None || parsed(s@, radix as nat)->0 > u128::MAX,
        },
{
    let cs = chars_of(s);
    let from: usize = if cs.len() > 0 && cs[0] == '+' {
        1
    } else {
        0
    };
    if from == cs.len() {
        return None;
    }
    let ghost t = s@.skip(from as int);
    proof {
        assert(s@.skip(0) =~= s@);
        assert(t.take(0) =~= Seq::<char>::empty());
    }
    let mut acc: u128 = 0;
    let mut over: bool = false;
    let mut i: usize = from;
    while i < cs.len()
        invariant
            from <= i <= cs@.len(),
            2 <= radix <= 16,
            from == (if s@.len() > 0 && s@[0] == '+' {
                1int
            } else {
                0int
            }),
            cs@ == s@,
            t == s@.skip(from as int),
            s@.skip(0) == s@,
            all_digits(t.take(i - from), radix as nat),
            over ==> value_of(t.take(i - from), radix as nat) > u128::MAX,
            !over ==> value_of(t.take(i - from), radix as nat) == acc,
        decreases cs@.len() - i,
    {
        let d = match digit(cs[i]) {
            Some(d) if d < radix => d,
            _ => {
                proof {
                    assert(!is_digit(t[i - from], radix as nat));
                    assert(!all_digits(t, radix as nat));
                }
                return None;
            },
        };
        proof {
            let a = t.take(i - from);
            let b = t.take(i - from + 1);
            assert(b.drop_last() =~= a);
            assert(b.last() == cs@[i as int]);
            assert forall|k: int| 0 <= k < b.len() implies is_digit(#[trigger] b[k], radix as nat) by {
                if k < a.len() {
                    assert(a[k] == b[k]);
                }
            }
            assert(value_of(b, radix as nat) == value_of(a, radix as nat) * (radix as nat) + d);
            assert(value_of(a, radix as nat) * (radix as nat) >= value_of(a, radix as nat))
                by (nonlinear_arith)
                requires
                    radix >= 2,
            ;
        }
        if !over {
            match acc.checked_mul(radix as u128) {
                Some(m) => match m.checked_add(d as u128) {
                    Some(n) => {
                        acc = n;
                    },
                    None => {
                        over = true;
                    },
                },
                None => {
                    over = true;
                },
            }
        }
        i = i + 1;
    }
    proof {
        assert(t.take(cs@.len() - from) =~= t);
    }
    if over {
        None
    } else {
        Some(acc)
    }
}

/// The number that `s` writes in the radix, where it fits: what `u64::from_str_radix` gives.
pub fn parse_u64(s: &str, radix: u32) -> (r: Option<u64>)
    requires
        2 <= radix <= 16,
    ensures
        match r {
            Some(v) => parsed(s@, radix as nat) == Some(v as nat),
            None => parsed(s@, radix as nat) is None || parsed(s@, radix as nat)->0 > u64::MAX,
        },
{
    match parse_u128(s, radix) {
        Some(v) => if v <= 0xffff_ffff_ffff_ffff {
            Some(v as u64)
        } else {
            None
        },
        None => None,
    }
}

/// The decimal number that `s` writes, where it fits: what `usize::from_str` gives.
pub fn parse_usize(s: &str) -> (r: Option<usize>)
    ensures
        match r {
            Some(v) => parsed(s@, 10) == Some(v as nat),
            None => parsed(s@, 10) is None || parsed(s@, 10)->0 > usize::MAX,
        },
{
    match parse_u128(s, 10) {
        Some(v) => if v <= usize::MAX as u128 {
            Some(v as usize)
        } else {
            None
        },
        None => None,
    }
}

/// The digit that stands for `d`.
pub fn char_of_digit(d: u32) -> (r: char)
    requires
        d < 16,
    ensures
        r == digit_char(d as nat),
{
    let b: u8 = d as u8;
    if b < 10 {
        (48 + b) as char
    } else {
        (87 + b) as char
    }
}

/// The shortest lower-case digits of `v` in the radix.
pub fn format_u128(v: u128, radix: u32) -> (r: String)
    requires
        2 <= radix <= 16,
    ensures
        r@ == digits_of(v as nat, radix as nat),
    decreases v,
{
    let w: u128 = radix as u128;
    let mut head = if v < w {
        String::new()
    } else {
        proof {
            assert(v / w < v) by (nonlinear_arith)
                requires
                    v >= w,
                    w >= 2,
            ;
        }
        format_u128(v / w, radix)
    };
    let d: u32 = (v % w) as u32;
    proof {
        if v < w {
            assert(v % w == v) by (nonlinear_arith)
                requires
                    v < w,
            ;
        }
    }
    head.push(char_of_digit(d));
    proof {
        if v < w {
            assert(head@ =~= seq![digit_char(v as nat)]);
        }
    }
    head
}

/// The decimal digits of `v`, as `to_string` gives them.
pub fn decimal(v: u64) -> (r: String)
    ensures
        r@ == digits_of(v as nat, 10),
{
    format_u128(v as u128, 10)
}

/// The decimal text of a signed integer.
pub open spec fn signed_text(v: int) -> Seq<char> {
    if v < 0 {
        seq!['-'] + digits_of((-v) as nat, 10)
    } else {
        digits_of(v as nat, 10)
    }
}

/// The decimal text of a signed integer, as `to_string` gives it.
pub fn signed_decimal(v: i64) -> (r: String)
    ensures
        r@ == signed_text(v as int),
{
    if v < 0 {
        let mut out = String::new();
        out.push('-');
        let m: i128 = -(v as i128);
        let d = format_u128(m as u128, 10);
        out.append(d.as_str());
        proof {
            assert(out@ =~= signed_text(v as int));
        }
        out
    } else {
        format_u128(v as u128, 10)
    }
}

/// `s` with zeros put before it up to a length of `width`.
pub fn pad_zeros(s: &str, width: usize) -> (r: String)
    ensures
        r@ == zero_padded(s@, width as nat),
{
    let n: usize = s.unicode_len();
    let mut out = String::new();
    let mut i: usize = n;
    while i < width
        invariant
            n == s@.len(),
            n <= i,
            i <= width || i == n,
            out@ =~= Seq::new((i - n) as nat, |k: int| '0'),
        decreases width - i,
    {
        out.push('0');
        i = i + 1;
    }
    out.append(s);
    proof {
        assert(out@ =~= zero_padded(s@, width as nat));
    }
    out
}

} // verus!

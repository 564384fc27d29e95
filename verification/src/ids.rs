//! Identifiers of events and of things that live in a world, as the storage writes them.
use vstd::prelude::*;
use vstd::string::*;
use crate::digits::{
    digits_are_plain, digits_len, digits_of, digits_write_value, format_u128, is_digit,
    pad_zeros, parse_of_digits, parse_u64, parsed, value_of_padded, zero_padded,
};
use crate::felt::{felt_by_value, felt_parsed, prime, sixteen_to_64, Felt};
use crate::text::{
    chars_of, has_prefix, split, split_append, split_on, split_single, string_of, views,
};

verus! {

/// `v` in hexadecimal after `0x`, with zeros up to `width` digits.
pub open spec fn hex_field(v: nat, width: nat) -> Seq<char> {
    seq!['0', 'x'] + zero_padded(digits_of(v, 16), width)
}

/// The element in hexadecimal after `0x`, without leading zeros.
pub fn hex_felt(felt: &Felt) -> (r: String)
    requires
        felt.wf(),
    ensures
        r@ == hex_field(felt.value(), 0),
{
    padded_felt(felt, 0)
}

/// The element in hexadecimal after `0x`, with zeros up to `width` digits.
pub fn padded_felt(felt: &Felt, width: usize) -> (r: String)
    requires
        felt.wf(),
    ensures
        r@ == hex_field(felt.value(), width as nat),
{
    let d = felt.hex_digits();
    prefixed(&d, width)
}

/// The integer in hexadecimal after `0x`, with zeros up to `width` digits.
pub fn padded_u64(v: u64, width: usize) -> (r: String)
    ensures
        r@ == hex_field(v as nat, width as nat),
{
    let d = format_u128(v as u128, 16);
    prefixed(&d, width)
}

/// `digits` after `0x`, with zeros up to `width` digits.
fn prefixed(digits: &String, width: usize) -> (r: String)
    ensures
        r@ == seq!['0', 'x'] + zero_padded(digits@, width as nat),
{
    let mut out = String::new();
    out.push('0');
    out.push('x');
    let p = pad_zeros(digits.as_str(), width);
    out.append(p.as_str());
    proof {
        assert(out@ =~= seq!['0', 'x'] + zero_padded(digits@, width as nat));
    }
    out
}

/// The identifier of an event: block, transaction and contract in 62 digits, the index in two.
pub open spec fn event_id(block: nat, transaction: nat, contract: nat, index: nat) -> Seq<char> {
    hex_field(block, 62) + seq![':'] + hex_field(transaction, 62) + seq![':'] + hex_field(
        contract,
        62,
    ) + seq![':'] + hex_field(index, 2)
}

/// The identifier of an event in the storage.
pub fn format_event_id(
    block_number: u64,
    transaction_hash: &Felt,
    contract_address: &Felt,
    event_idx: u64,
) -> (r: String)
    requires
        transaction_hash.wf(),
        contract_address.wf(),
    ensures
        r@ == event_id(
            block_number as nat,
            transaction_hash.value(),
            contract_address.value(),
            event_idx as nat,
        ),
{
    let mut out = padded_u64(block_number, 62);
    out.push(':');
    let t = padded_felt(transaction_hash, 62);
    out.append(t.as_str());
    out.push(':');
    let c = padded_felt(contract_address, 62);
    out.append(c.as_str());
    out.push(':');
    let i = padded_u64(event_idx, 2);
    out.append(i.as_str());
    proof {
        assert(out@ =~= event_id(
            block_number as nat,
            transaction_hash.value(),
            contract_address.value(),
            event_idx as nat,
        ));
    }
    out
}

/// `s` without any `0x` at its beginning, however often it stands there.
pub open spec fn without_0x(s: Seq<char>) -> Seq<char>
    decreases s.len(),
{
    if has_prefix(s, seq!['0', 'x']) {
        without_0x(s.skip(2))
    } else {
        s
    }
}

/// The integer of 64 bits that `s` writes in hexadecimal, after any number of `0x`.
pub open spec fn hex_u64_parsed(s: Seq<char>) -> Option<nat> {
    match parsed(without_0x(s), 16) {
        Some(v) => if v <= u64::MAX {
            Some(v)
        } else {
            None
        },
        None => None,
    }
}

/// The block, transaction, contract and index that an event identifier holds in its first four
/// fields.
pub open spec fn event_id_parsed(s: Seq<char>) -> Option<(nat, nat, nat, nat)> {
    let parts = split(s, ':');
    if parts.len() >= 4 && hex_u64_parsed(parts[0]) is Some && felt_parsed(parts[1]) is Some
        && felt_parsed(parts[2]) is Some && hex_u64_parsed(parts[3]) is Some {
        Some(
            (
                hex_u64_parsed(parts[0])->0,
                felt_parsed(parts[1])->0,
                felt_parsed(parts[2])->0,
                hex_u64_parsed(parts[3])->0,
            ),
        )
    } else {
        None
    }
}

/// The integer of 64 bits that `s` writes in hexadecimal, after any number of `0x`.
fn parse_hex_u64(s: &str) -> (r: Option<u64>)
    ensures
        match r {
            Some(v) => hex_u64_parsed(s@) == Some(v as nat),
            None => hex_u64_parsed(s@) is None,
        },
{
    let cs = chars_of(s);
    let n: usize = cs.len();
    let mut from: usize = 0;
    proof {
        assert(s@.skip(0) =~= s@);
    }
    while n - from >= 2 && cs[from] == '0' && cs[from + 1] == 'x'
        invariant
            from <= n,
            n == cs@.len(),
            cs@ == s@,
            without_0x(s@.skip(from as int)) == without_0x(s@),
        decreases n - from,
    {
        proof {
            let t = s@.skip(from as int);
            assert(t.take(2) =~= seq!['0', 'x']);
            assert(t.skip(2) =~= s@.skip(from + 2));
        }
        from = from + 2;
    }
    proof {
        let t = s@.skip(from as int);
        if has_prefix(t, seq!['0', 'x']) {
            assert(t.take(2)[0] == s@[from as int]);
            assert(t.take(2)[1] == s@[from + 1]);
        }
        assert(s@.subrange(from as int, n as int) =~= t);
    }
    let rest = string_of(&cs, from, n);
    parse_u64(&rest, 16)
}

/// The block, transaction, contract and index of an event, out of its identifier.
pub fn parse_event_id(event_id: &str) -> (r: (u64, Felt, Felt, u64))
    requires
        event_id_parsed(event_id@) is Some,
    ensures
        event_id_parsed(event_id@) == Some((r.0 as nat, r.1.value(), r.2.value(), r.3 as nat)),
        r.1.wf(),
        r.2.wf(),
{
    let parts = split_on(event_id, ':');
    proof {
        assert forall|i: int| 0 <= i < parts@.len() implies views(parts@)[i] == parts@[i]@ by {}
    }
    (
        parse_hex_u64(&parts[0]).unwrap(),
        Felt::from_str(&parts[1]).unwrap(),
        Felt::from_str(&parts[2]).unwrap(),
        parse_hex_u64(&parts[3]).unwrap(),
    )
}

/// The identifier of a thing within a world: the two elements in 62 digits each.
pub open spec fn world_scoped_id(world: nat, selector: nat) -> Seq<char> {
    hex_field(world, 62) + seq![':'] + hex_field(selector, 62)
}

/// The identifier of a thing within a world.
pub fn format_world_scoped_id(world_address: &Felt, selector: &Felt) -> (r: String)
    requires
        world_address.wf(),
        selector.wf(),
    ensures
        r@ == world_scoped_id(world_address.value(), selector.value()),
{
    let mut out = padded_felt(world_address, 62);
    out.push(':');
    let s = padded_felt(selector, 62);
    out.append(s.as_str());
    proof {
        assert(out@ =~= world_scoped_id(world_address.value(), selector.value()));
    }
    out
}

/// Why a world-scoped identifier was refused.
#[derive(Clone, Copy, Debug, PartialEq, Eq, Structural)]
pub enum ScopedIdError {
    /// It is not made of two fields.
    Format,
    /// One of the fields is not a field element.
    Felt,
}

impl ScopedIdError {
    /// The message for a reader.
    pub fn message(&self) -> (r: &'static str)
        ensures
            r@ == (match *self {
                ScopedIdError::Format =>
                    "Invalid world-scoped ID format: expected 'world_address:selector'"@,
                ScopedIdError::Felt => "failed to create Felt from string"@,
            }),
    {
        match self {
            ScopedIdError::Format =>
                "Invalid world-scoped ID format: expected 'world_address:selector'",
            ScopedIdError::Felt => "failed to create Felt from string",
        }
    }
}

/// What a world-scoped identifier holds.
pub open spec fn world_scoped_id_parsed(s: Seq<char>) -> Result<(nat, nat), ScopedIdError> {
    let parts = split(s, ':');
    if parts.len() != 2 {
        Err(ScopedIdError::Format)
    } else if felt_parsed(parts[0]) is Some && felt_parsed(parts[1]) is Some {
        Ok((felt_parsed(parts[0])->0, felt_parsed(parts[1])->0))
    } else {
        Err(ScopedIdError::Felt)
    }
}

/// The world and the selector of a world-scoped identifier.
pub fn parse_world_scoped_id(scoped_id: &str) -> (r: Result<(Felt, Felt), ScopedIdError>)
    ensures
        match r {
            Ok(p) => p.0.wf() && p.1.wf() && world_scoped_id_parsed(scoped_id@) == Ok::<
                (nat, nat),
                ScopedIdError,
            >((p.0.value(), p.1.value())),
            Err(e) => world_scoped_id_parsed(scoped_id@) == Err::<(nat, nat), ScopedIdError>(e),
        },
{
    let parts = split_on(scoped_id, ':');
    proof {
        assert forall|i: int| 0 <= i < parts@.len() implies views(parts@)[i] == parts@[i]@ by {}
    }
    if parts.len() != 2 {
        return Err(ScopedIdError::Format);
    }
    match (Felt::from_str(&parts[0]), Felt::from_str(&parts[1])) {
        (Some(world), Some(selector)) => Ok((world, selector)),
        _ => Err(ScopedIdError::Felt),
    }
}

/// A hexadecimal field reads back as the element it was written from.
pub proof fn hex_field_reads_back(v: nat, width: nat)
    requires
        v < prime(),
        width <= 64,
    ensures
        felt_parsed(hex_field(v, width)) == Some(v),
        !hex_field(v, width).contains(':'),
{
    let s = hex_field(v, width);
    let d = digits_of(v, 16);
    let p = zero_padded(d, width);
    assert(s.take(2) =~= seq!['0', 'x']);
    assert(s.skip(2) =~= p);
    digits_write_value(v, 16);
    digits_are_plain(v, 16);
    sixty_four_digits(v);
    parse_of_digits(v, 16, width);
    let k = if d.len() < width {
        (width - d.len()) as nat
    } else {
        0
    };
    assert(p =~= Seq::new(k, |i: int| '0') + d);
    value_of_padded(d, k, 16);
    assert forall|i: int| 0 <= i < p.len() implies is_digit(#[trigger] p[i], 16) by {
        if i >= k {
            assert(p[i] == d[i - k]);
        }
    }
    vstd::arithmetic::div_mod::lemma_small_mod(v, prime());
    assert forall|i: int| 0 <= i < s.len() implies s[i] != ':' by {
        if i >= 2 {
            assert(s[i] == p[i - 2]);
            assert(is_digit(p[i - 2], 16));
        }
    }
}

/// A field element has at most 64 hexadecimal digits.
proof fn sixty_four_digits(v: nat)
    requires
        v < prime(),
    ensures
        digits_of(v, 16).len() <= 64,
{
    sixteen_to_64();
    digits_len(v, 16, 64);
}

/// A hexadecimal field reads back as the integer it was written from.
pub proof fn hex_field_reads_back_u64(v: nat, width: nat)
    requires
        v <= u64::MAX,
    ensures
        hex_u64_parsed(hex_field(v, width)) == Some(v),
        !hex_field(v, width).contains(':'),
{
    let s = hex_field(v, width);
    let d = digits_of(v, 16);
    let p = zero_padded(d, width);
    assert(s.take(2) =~= seq!['0', 'x']);
    assert(s.skip(2) =~= p);
    digits_write_value(v, 16);
    parse_of_digits(v, 16, width);
    let k = if d.len() < width {
        (width - d.len()) as nat
    } else {
        0
    };
    assert(p =~= Seq::new(k, |i: int| '0') + d);
    assert forall|i: int| 0 <= i < p.len() implies is_digit(#[trigger] p[i], 16) by {
        if i >= k {
            assert(p[i] == d[i - k]);
        }
    }
    if has_prefix(p, seq!['0', 'x']) {
        assert(p.take(2)[1] == p[1]);
        assert(is_digit(p[1], 16));
        assert(false);
    }
    assert(without_0x(s) == without_0x(p));
    assert forall|i: int| 0 <= i < s.len() implies s[i] != ':' by {
        if i >= 2 {
            assert(s[i] == p[i - 2]);
            assert(is_digit(p[i - 2], 16));
        }
    }
}

/// Parsing the identifier of an event gives back what it was made from.
pub proof fn event_id_round_trip(block: u64, transaction: Felt, contract: Felt, index: u64)
    requires
        transaction.wf(),
        contract.wf(),
    ensures
        event_id_parsed(
            event_id(block as nat, transaction.value(), contract.value(), index as nat),
        ) == Some((block as nat, transaction.value(), contract.value(), index as nat)),
{
    let a = hex_field(block as nat, 62);
    let b = hex_field(transaction.value(), 62);
    let c = hex_field(contract.value(), 62);
    let d = hex_field(index as nat, 2);
    hex_field_reads_back_u64(block as nat, 62);
    hex_field_reads_back(transaction.value(), 62);
    hex_field_reads_back(contract.value(), 62);
    hex_field_reads_back_u64(index as nat, 2);
    split_single(a, ':');
    split_append(a, b, ':');
    split_append(a + seq![':'] + b, c, ':');
    split_append(a + seq![':'] + b + seq![':'] + c, d, ':');
    assert(split(event_id(block as nat, transaction.value(), contract.value(), index as nat), ':')
        =~= seq![a, b, c, d]);
}

/// Parsing a world-scoped identifier gives back the world and the selector.
pub proof fn world_scoped_id_round_trip(world: Felt, selector: Felt)
    requires
        world.wf(),
        selector.wf(),
    ensures
        world_scoped_id_parsed(world_scoped_id(world.value(), selector.value())) == Ok::<
            (nat, nat),
            ScopedIdError,
        >((world.value(), selector.value())),
{
    let a = hex_field(world.value(), 62);
    let b = hex_field(selector.value(), 62);
    hex_field_reads_back(world.value(), 62);
    hex_field_reads_back(selector.value(), 62);
    split_single(a, ':');
    split_append(a, b, ':');
    assert(split(world_scoped_id(world.value(), selector.value()), ':') =~= seq![a, b]);
}

/// Identifiers of the same value in different worlds differ, and so do different identifiers of
/// one world.
pub proof fn world_scoped_ids_are_unique(w1: Felt, s1: Felt, w2: Felt, s2: Felt)
    requires
        w1.wf(),
        s1.wf(),
        w2.wf(),
        s2.wf(),
        world_scoped_id(w1.value(), s1.value()) == world_scoped_id(w2.value(), s2.value()),
    ensures
        w1 == w2,
        s1 == s2,
{
    world_scoped_id_round_trip(w1, s1);
    world_scoped_id_round_trip(w2, s2);
    felt_by_value(w1, w2);
    felt_by_value(s1, s2);
}

} // verus!

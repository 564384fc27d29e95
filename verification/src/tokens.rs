//! Identifiers of tokens and of balances.
use vstd::prelude::*;
use vstd::string::*;
use crate::digits::{
    all_digits, digit, is_digit, parse_u128, value_bounded, value_of, value_of_concat,
};
use crate::felt::{felt_parsed, sixteen_to_32, Felt};
use crate::ids::without_0x;
use crate::schema::U256;
use crate::text::{chars_of, has_prefix, split, split_on, string_of, views};

verus! {

/// A token: a contract of fungible tokens, or one token of a contract.
#[derive(Clone, Copy, Debug, PartialEq, Eq, Hash, Structural)]
pub enum TokenId {
    Contract(Felt),
    Nft(Felt, U256),
}

impl TokenId {
    /// The contract of the token.
    pub open spec fn contract(self) -> Felt {
        match self {
            TokenId::Contract(a) => a,
            TokenId::Nft(a, _) => a,
        }
    }

    /// The contract of the token.
    pub fn contract_address(&self) -> (r: Felt)
        ensures
            r == self.contract(),
    {
        match self {
            TokenId::Contract(a) => *a,
            TokenId::Nft(a, _) => *a,
        }
    }

    /// The value of the contract, and of the token where there is one.
    pub open spec fn values(self) -> (nat, Option<nat>) {
        match self {
            TokenId::Contract(a) => (a.value(), None),
            TokenId::Nft(a, t) => (a.value(), Some(t.value())),
        }
    }
}

/// The number that exactly 64 hexadecimal digits write.
pub open spec fn from_be_hex(s: Seq<char>) -> Option<nat> {
    if s.len() == 64 && all_digits(s, 16) {
        Some(value_of(s, 16))
    } else {
        None
    }
}

/// The contract and the token that an identifier of the storage holds: two fields for one token of
/// a contract, else the first field for a contract.
pub open spec fn token_parsed(id: Seq<char>) -> Option<(nat, Option<nat>)> {
    let parts = split(id, ':');
    if parts.len() == 2 {
        if felt_parsed(parts[0]) is Some && from_be_hex(without_0x(parts[1])) is Some {
            Some((felt_parsed(parts[0])->0, Some(from_be_hex(without_0x(parts[1]))->0)))
        } else {
            None
        }
    } else if felt_parsed(parts[0]) is Some {
        Some((felt_parsed(parts[0])->0, None))
    } else {
        None
    }
}

/// The integer that 64 hexadecimal digits, from the index on, write.
fn u256_from_be_hex(cs: &Vec<char>, from: usize) -> (r: Option<U256>)
    requires
        from <= cs@.len(),
    ensures
        match r {
            Some(v) => from_be_hex(cs@.skip(from as int)) == Some(v.value()),
            None => from_be_hex(cs@.skip(from as int)) is None,
        },
{
    let n: usize = cs.len();
    let ghost s = cs@.skip(from as int);
    if n - from != 64 {
        return None;
    }
    let mut i: usize = from;
    while i < n
        invariant
            from <= i <= n,
            n == cs@.len(),
            s == cs@.skip(from as int),
            forall|k: int| 0 <= k < i - from ==> is_digit(#[trigger] s[k], 16),
        decreases n - i,
    {
        if digit(cs[i]).is_none() {
            proof {
                assert(s[i - from] == cs@[i as int]);
                assert(!is_digit(s[i - from], 16));
            }
            return None;
        }
        proof {
            assert(s[i - from] == cs@[i as int]);
        }
        i = i + 1;
    }
    let a = string_of(cs, from, from + 32);
    let b = string_of(cs, from + 32, n);
    proof {
        assert(a@ =~= s.take(32));
        assert(b@ =~= s.skip(32));
        assert(s =~= a@ + b@);
        assert forall|k: int| 0 <= k < a@.len() implies is_digit(#[trigger] a@[k], 16) by {
            assert(a@[k] == s[k]);
        }
        assert forall|k: int| 0 <= k < b@.len() implies is_digit(#[trigger] b@[k], 16) by {
            assert(b@[k] == s[k + 32]);
        }
        assert(is_digit(a@[0], 16));
        assert(is_digit(b@[0], 16));
        value_bounded(a@, 16);
        value_bounded(b@, 16);
        value_of_concat(a@, b@, 16);
        sixteen_to_32();
    }
    match (parse_u128(&a, 16), parse_u128(&b, 16)) {
        (Some(hi), Some(lo)) => Some(U256 { hi, lo }),
        _ => None,
    }
}

/// The token that an identifier of the storage holds.
pub fn parse_token_id(id: &str) -> (r: Option<TokenId>)
    ensures
        match r {
            Some(t) => token_parsed(id@) == Some(t.values()) && t.contract().wf(),
            None => token_parsed(id@) is None,
        },
{
    let parts = split_on(id, ':');
    proof {
        assert forall|i: int| 0 <= i < parts@.len() implies views(parts@)[i] == parts@[i]@ by {}
    }
    let contract = match Felt::from_str(&parts[0]) {
        Some(a) => a,
        None => {
            return None;
        },
    };
    if parts.len() != 2 {
        return Some(TokenId::Contract(contract));
    }
    let cs = chars_of(&parts[1]);
    let n: usize = cs.len();
    let mut from: usize = 0;
    let ghost s = parts@[1]@;
    proof {
        assert(s.skip(0) =~= s);
    }
    while n - from >= 2 && cs[from] == '0' && cs[from + 1] == 'x'
        invariant
            from <= n,
            n == cs@.len(),
            cs@ == s,
            without_0x(s.skip(from as int)) == without_0x(s),
        decreases n - from,
    {
        proof {
            let t = s.skip(from as int);
            assert(t.take(2) =~= seq!['0', 'x']);
            assert(t.skip(2) =~= s.skip(from + 2));
        }
        from = from + 2;
    }
    proof {
        let t = s.skip(from as int);
        if has_prefix(t, seq!['0', 'x']) {
            assert(t.take(2)[0] == s[from as int]);
            assert(t.take(2)[1] == s[from + 1]);
        }
    }
    match u256_from_be_hex(&cs, from) {
        Some(v) => Some(TokenId::Nft(contract, v)),
        None => None,
    }
}

/// The tokens that the identifiers hold, one for one.
pub fn token_ids(ids: &Vec<String>) -> (r: Vec<TokenId>)
    requires
        forall|i: int| 0 <= i < ids@.len() ==> token_parsed((#[trigger] ids@[i])@) is Some,
    ensures
        r@.len() == ids@.len(),
        forall|i: int|
            0 <= i < r@.len() ==> token_parsed(ids@[i]@) == Some((#[trigger] r@[i]).values()),
{
    let mut out: Vec<TokenId> = Vec::new();
    let mut i: usize = 0;
    while i < ids.len()
        invariant
            i <= ids@.len(),
            out@.len() == i,
            forall|i: int| 0 <= i < ids@.len() ==> token_parsed((#[trigger] ids@[i])@) is Some,
            forall|k: int|
                0 <= k < i ==> token_parsed(ids@[k]@) == Some((#[trigger] out@[k]).values()),
        decreases ids@.len() - i,
    {
        match parse_token_id(&ids[i]) {
            Some(t) => {
                out.push(t);
            },
            None => {},
        }
        i = i + 1;
    }
    out
}

} // verus!

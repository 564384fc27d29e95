//! Signed amounts of 256 bits, and concurrent maps of them.
use vstd::prelude::*;
use crate::felt::{two_pow_128, two_pow_256, wide_order, Felt};
use crate::schema::U256;
use crate::tokens::TokenId;

verus! {

/// A signed amount: magnitude and sign.
#[derive(Clone, Copy, Debug, PartialEq, Eq, Structural)]
pub struct I256 {
    pub value: U256,
    pub is_negative: bool,
}

impl I256 {
    /// The number that the amount stands for.
    pub open spec fn amount(self) -> int {
        if self.is_negative {
            -(self.value.value() as int)
        } else {
            self.value.value() as int
        }
    }

    /// The amount of a number without sign.
    pub fn from_u256(value: U256) -> (r: I256)
        ensures
            r.amount() == value.value(),
            !r.is_negative,
            r.value == value,
    {
        I256 { value, is_negative: false }
    }
}

/// Whether `a` is below `b`.
fn below(a: U256, b: U256) -> (r: bool)
    ensures
        r == (a.value() < b.value()),
{
    proof {
        wide_order(a.hi as nat, a.lo as nat, b.hi as nat, b.lo as nat);
    }
    a.hi < b.hi || (a.hi == b.hi && a.lo < b.lo)
}

/// The sum of two numbers, where it fits.
fn plus(a: U256, b: U256) -> (r: U256)
    requires
        a.value() + b.value() < two_pow_256(),
    ensures
        r.value() == a.value() + b.value(),
{
    let ghost w = two_pow_128();
    proof {
        let h = (a.hi as nat + b.hi as nat) as nat;
        let l = (a.lo as nat + b.lo as nat) as nat;
        assert(h * w + l == a.value() + b.value()) by (nonlinear_arith)
            requires
                h == a.hi as nat + b.hi as nat,
                l == a.lo as nat + b.lo as nat,
                a.value() == a.hi as nat * w + a.lo as nat,
                b.value() == b.hi as nat * w + b.lo as nat,
        ;
        if h >= w {
            assert(h * w >= w * w) by (nonlinear_arith)
                requires
                    h >= w,
            ;
        }
        if l >= w && h + 1 >= w {
            assert(h * w + w >= w * w) by (nonlinear_arith)
                requires
                    h + 1 >= w,
            ;
        }
        if l >= w {
            assert((h + 1) * w + (l - w) == h * w + l) by (nonlinear_arith);
        }
    }
    match a.lo.checked_add(b.lo) {
        Some(lo) => U256 { hi: a.hi + b.hi, lo },
        None => {
            let rest: u128 = 0xffff_ffff_ffff_ffff_ffff_ffff_ffff_ffff - a.lo;
            let lo: u128 = b.lo - rest - 1;
            U256 { hi: a.hi + b.hi + 1, lo }
        },
    }
}

/// The difference of two numbers, where it is not negative.
fn minus(a: U256, b: U256) -> (r: U256)
    requires
        b.value() <= a.value(),
    ensures
        r.value() == a.value() - b.value(),
{
    let ghost w = two_pow_128();
    proof {
        wide_order(a.hi as nat, a.lo as nat, b.hi as nat, b.lo as nat);
        let h = a.hi - b.hi;
        let l = a.lo - b.lo;
        assert(h * w + l == a.value() - b.value()) by (nonlinear_arith)
            requires
                h == a.hi - b.hi,
                l == a.lo - b.lo,
                a.value() == a.hi as nat * w + a.lo as nat,
                b.value() == b.hi as nat * w + b.lo as nat,
        ;
        assert((h - 1) * w + (l + w) == h * w + l) by (nonlinear_arith);
    }
    if a.lo >= b.lo {
        U256 { hi: a.hi - b.hi, lo: a.lo - b.lo }
    } else {
        let rest: u128 = 0xffff_ffff_ffff_ffff_ffff_ffff_ffff_ffff - b.lo;
        U256 { hi: a.hi - b.hi - 1, lo: rest + 1 + a.lo }
    }
}

/// Whether an amount can be held.
pub open spec fn fits(v: int) -> bool {
    -(two_pow_256() as int) < v && v < two_pow_256() as int
}

/// The sum of two amounts, where it can be held. A sum of zero is not negative.
pub fn add_amounts(a: I256, b: I256) -> (r: I256)
    requires
        fits(a.amount() + b.amount()),
    ensures
        r.amount() == a.amount() + b.amount(),
{
    if a.is_negative == b.is_negative {
        I256 { value: plus(a.value, b.value), is_negative: a.is_negative }
    } else if below(a.value, b.value) {
        I256 { value: minus(b.value, a.value), is_negative: b.is_negative }
    } else if below(b.value, a.value) {
        I256 { value: minus(a.value, b.value), is_negative: a.is_negative }
    } else {
        I256 { value: minus(a.value, b.value), is_negative: false }
    }
}

/// The difference of two amounts, where it can be held.
pub fn sub_amounts(a: I256, b: I256) -> (r: I256)
    requires
        fits(a.amount() - b.amount()),
    ensures
        r.amount() == a.amount() - b.amount(),
{
    add_amounts(a, I256 { value: b.value, is_negative: !b.is_negative })
}

// ---------------------------------------------------------------------------
// Concurrent maps
// ---------------------------------------------------------------------------

/// An account and a token: the account by its halves, the contract by its halves, whether one
/// token of the contract is meant, and that token by its halves.
pub type CellKey = (u128, u128, u128, u128, bool, u128, u128);

/// A value of the maps: two integers and a tag.
pub type Cell = (u128, u128, u8);

#[verifier::external_type_specification]
#[verifier::external_body]
#[verifier::reject_recursive_types(K)]
#[verifier::reject_recursive_types(V)]
#[verifier::reject_recursive_types(S)]
pub struct ExDashMap<K, V, S>(dashmap::DashMap<K, V, S>);

/// What a concurrent map holds.
pub uninterp spec fn cells(m: dashmap::DashMap<CellKey, Cell>) -> Map<CellKey, Cell>;

/// A map that holds nothing.
pub open spec fn no_cells() -> Map<CellKey, Cell> {
    Map::empty()
}

/// `dashmap::DashMap::new` makes a map that holds nothing.
#[verifier::external_body]
pub(crate) fn new_cells() -> (r: dashmap::DashMap<CellKey, Cell>)
    ensures
        cells(r) == no_cells(),
{
    dashmap::DashMap::new()
}

/// `dashmap::DashMap::get` gives the value of a key, if the map holds one.
#[verifier::external_body]
pub(crate) fn get_cell(m: &dashmap::DashMap<CellKey, Cell>, k: CellKey) -> (r: Option<Cell>)
    ensures
        r == (if cells(*m).dom().contains(k) {
            Some(cells(*m)[k])
        } else {
            None
        }),
{
    m.get(&k).map(|v| *v)
}

/// `dashmap::DashMap::insert` sets the value of a key and leaves the others.
#[verifier::external_body]
pub(crate) fn put_cell(m: &mut dashmap::DashMap<CellKey, Cell>, k: CellKey, v: Cell)
    ensures
        cells(*final(m)) == cells(*old(m)).insert(k, v),
{
    m.insert(k, v);
}

/// `dashmap::DashMap::remove` takes a key out with its value, if it is there.
#[verifier::external_body]
pub(crate) fn remove_cell(m: &mut dashmap::DashMap<CellKey, Cell>, k: CellKey)
    ensures
        cells(*final(m)) == cells(*old(m)).remove(k),
{
    m.remove(&k);
}

/// `dashmap::DashMap::len` gives the number of keys.
#[verifier::external_body]
pub(crate) fn count_cells(m: &dashmap::DashMap<CellKey, Cell>) -> (r: usize)
    ensures
        r == cells(*m).dom().len(),
{
    m.len()
}

/// `dashmap::DashMap::clear` takes everything out.
#[verifier::external_body]
pub(crate) fn clear_cells(m: &mut dashmap::DashMap<CellKey, Cell>)
    ensures
        cells(*final(m)) == no_cells(),
{
    m.clear();
}

/// `dashmap::DashMap::iter` gives every key once, with its value, in no stated order.
#[verifier::external_body]
pub(crate) fn list_cells(m: &dashmap::DashMap<CellKey, Cell>) -> (r: Vec<(CellKey, Cell)>)
    ensures
        forall|k: CellKey|
            #[trigger] cells(*m).dom().contains(k) <==> exists|i: int|
                0 <= i < r@.len() && (#[trigger] r@[i]).0 == k,
        forall|i: int| 0 <= i < r@.len() ==> cells(*m)[(#[trigger] r@[i]).0] == r@[i].1,
        forall|i: int, j: int|
            0 <= i < j < r@.len() ==> (#[trigger] r@[i]).0 != (#[trigger] r@[j]).0,
{
    m.iter().map(|e| (*e.key(), *e.value())).collect()
}

/// The key of an account and a token.
pub open spec fn key_of(account: Felt, token: TokenId) -> CellKey {
    match token {
        TokenId::Contract(a) => (account.hi, account.lo, a.hi, a.lo, false, 0, 0),
        TokenId::Nft(a, t) => (account.hi, account.lo, a.hi, a.lo, true, t.hi, t.lo),
    }
}

/// The key of an account and a token.
pub fn key(account: Felt, token: TokenId) -> (r: CellKey)
    ensures
        r == key_of(account, token),
{
    match token {
        TokenId::Contract(a) => (account.hi, account.lo, a.hi, a.lo, false, 0, 0),
        TokenId::Nft(a, t) => (account.hi, account.lo, a.hi, a.lo, true, t.hi, t.lo),
    }
}

/// The account of a key.
pub open spec fn account_of(k: CellKey) -> Felt {
    Felt { hi: k.0, lo: k.1 }
}

/// The token of a key.
pub open spec fn token_of(k: CellKey) -> TokenId {
    if k.4 {
        TokenId::Nft(Felt { hi: k.2, lo: k.3 }, U256 { hi: k.5, lo: k.6 })
    } else {
        TokenId::Contract(Felt { hi: k.2, lo: k.3 })
    }
}

/// The amount that a value stands for.
pub open spec fn amount_of(c: Cell) -> int {
    (I256 { value: U256 { hi: c.0, lo: c.1 }, is_negative: c.2 != 0 }).amount()
}

/// The value that stands for an amount.
pub fn cell_of(a: I256) -> (r: Cell)
    ensures
        amount_of(r) == a.amount(),
        r == (a.value.hi, a.value.lo, if a.is_negative {
            1u8
        } else {
            0u8
        }),
{
    (a.value.hi, a.value.lo, if a.is_negative {
        1
    } else {
        0
    })
}

/// The amount that a value stands for.
pub fn amount(c: Cell) -> (r: I256)
    ensures
        r.amount() == amount_of(c),
        r == (I256 { value: U256 { hi: c.0, lo: c.1 }, is_negative: c.2 != 0 }),
{
    I256 { value: U256 { hi: c.0, lo: c.1 }, is_negative: c.2 != 0 }
}

// ---------------------------------------------------------------------------
// Sums
// ---------------------------------------------------------------------------

/// The amounts that a map holds.
pub open spec fn amounts(m: Map<CellKey, Cell>) -> Map<CellKey, int> {
    m.map_values(|c: Cell| amount_of(c))
}

/// The amount of a key; zero where there is none.
pub open spec fn at(a: Map<CellKey, int>, k: CellKey) -> int {
    if a.dom().contains(k) {
        a[k]
    } else {
        0
    }
}

/// The amounts with that of a key changed.
pub open spec fn moved(a: Map<CellKey, int>, k: CellKey, by: int) -> Map<CellKey, int> {
    a.insert(k, at(a, k) + by)
}

/// The amounts of a token, over all accounts.
pub open spec fn token_sum(m: Map<CellKey, int>, t: TokenId) -> int
    decreases m.dom().len(),
    when m.dom().finite()
{
    if m.dom().len() == 0 {
        0
    } else {
        let k = m.dom().choose();
        token_sum(m.remove(k), t) + share(k, m[k], t)
    }
}

/// What an amount counts toward the sum of a token.
pub open spec fn share(k: CellKey, v: int, t: TokenId) -> int {
    if token_of(k) == t {
        v
    } else {
        0
    }
}

/// The sum does not depend on which key is taken first.
pub proof fn token_sum_takes_any(m: Map<CellKey, int>, t: TokenId, k: CellKey)
    requires
        m.dom().finite(),
        m.dom().contains(k),
    ensures
        token_sum(m, t) == token_sum(m.remove(k), t) + share(k, m[k], t),
    decreases m.dom().len(),
{
    let c = m.dom().choose();
    assert(m.dom().contains(c));
    if c != k {
        let a = m.remove(c);
        let b = m.remove(k);
        assert(a.dom() =~= m.dom().remove(c));
        assert(b.dom() =~= m.dom().remove(k));
        assert(a.dom().contains(k));
        assert(b.dom().contains(c));
        token_sum_takes_any(a, t, k);
        token_sum_takes_any(b, t, c);
        assert(a.remove(k) =~= b.remove(c));
        assert(a[k] == m[k]);
        assert(b[c] == m[c]);
    }
}

/// Moving an amount moves the sum of its token by as much, and no other sum.
pub proof fn token_sum_moved(m: Map<CellKey, int>, t: TokenId, k: CellKey, by: int)
    requires
        m.dom().finite(),
    ensures
        moved(m, k, by).dom().finite(),
        token_sum(moved(m, k, by), t) == token_sum(m, t) + share(k, by, t),
{
    let n = moved(m, k, by);
    assert(n.dom() =~= m.dom().insert(k));
    token_sum_takes_any(n, t, k);
    if m.dom().contains(k) {
        token_sum_takes_any(m, t, k);
        assert(n.remove(k) =~= m.remove(k));
    } else {
        assert(n.remove(k) =~= m);
    }
}

} // verus!

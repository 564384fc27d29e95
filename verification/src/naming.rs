//! Selectors of models and entry points, and hashes of keys.
use vstd::prelude::*;
use vstd::string::*;
use crate::felt::Felt;
use crate::text::{split, split_on, views};

verus! {

/// The selector that `dojo_types::naming::compute_selector_from_names` gives a model of that
/// namespace and name.
pub uninterp spec fn model_selector(namespace: Seq<char>, name: Seq<char>) -> Felt;

/// `dojo_types::naming::compute_selector_from_names` hashes a namespace and a name into a selector,
/// which depends on the two texts alone.
#[verifier::external_body]
pub(crate) fn compute_selector_from_names(namespace: &str, name: &str) -> (r: Felt)
    ensures
        r == model_selector(namespace@, name@),
        r.wf(),
{
    let b = dojo_types::naming::compute_selector_from_names(namespace, name).to_bytes_be();
    let mut hi = [0u8; 16];
    let mut lo = [0u8; 16];
    hi.copy_from_slice(&b[..16]);
    lo.copy_from_slice(&b[16..]);
    Felt { hi: u128::from_be_bytes(hi), lo: u128::from_be_bytes(lo) }
}

/// The selector of the model with the tag `namespace-name`; none for any other text.
pub fn try_compute_selector_from_tag(tag: &str) -> (r: Option<Felt>)
    ensures
        match r {
            Some(f) => f.wf() && split(tag@, '-').len() == 2 && f == model_selector(
                split(tag@, '-')[0],
                split(tag@, '-')[1],
            ),
            None => split(tag@, '-').len() != 2,
        },
{
    let parts = split_on(tag, '-');
    if parts.len() != 2 {
        return None;
    }
    proof {
        assert(views(parts@)[0] == parts@[0]@);
        assert(views(parts@)[1] == parts@[1]@);
    }
    Some(compute_selector_from_names(&parts[0], &parts[1]))
}

/// The element that `starknet_crypto::poseidon_hash_many` makes of a list of elements.
pub uninterp spec fn poseidon(keys: Seq<Felt>) -> Felt;

/// `starknet_crypto::poseidon_hash_many` hashes a list of elements into one, which depends on the
/// list alone.
#[verifier::external_body]
pub(crate) fn poseidon_hash_many(keys: &Vec<Felt>) -> (r: Felt)
    requires
        forall|i: int| 0 <= i < keys@.len() ==> (#[trigger] keys@[i]).wf(),
    ensures
        r == poseidon(keys@),
        r.wf(),
{
    let outer: Vec<starknet_crypto::Felt> = keys.iter().map(|k| {
        let mut b = [0u8; 32];
        b[..16].copy_from_slice(&k.hi.to_be_bytes());
        b[16..].copy_from_slice(&k.lo.to_be_bytes());
        starknet_crypto::Felt::from_bytes_be(&b)
    }).collect();
    let b = starknet_crypto::poseidon_hash_many(&outer).to_bytes_be();
    let mut hi = [0u8; 16];
    let mut lo = [0u8; 16];
    hi.copy_from_slice(&b[..16]);
    lo.copy_from_slice(&b[16..]);
    Felt { hi: u128::from_be_bytes(hi), lo: u128::from_be_bytes(lo) }
}

} // verus!

//! Interfaces of contract classes, and the names of their entry points.
use vstd::prelude::*;
use vstd::string::*;
use crate::felt::Felt;
use crate::text::{all_ascii, views};

verus! {

/// The selector that `starknet::core::utils::get_selector_from_name` gives an entry point.
pub uninterp spec fn entry_selector(name: Seq<char>) -> Felt;

/// `starknet::core::utils::get_selector_from_name` gives the selector of an entry point, which
/// depends on its name alone, and refuses names beyond ASCII.
#[verifier::external_body]
pub(crate) fn selector_from_name(name: &str) -> (r: Option<Felt>)
    ensures
        match r {
            Some(f) => all_ascii(name@) && f == entry_selector(name@),
            None => !all_ascii(name@),
        },
{
    let b = starknet::core::utils::get_selector_from_name(name).ok()?.to_bytes_be();
    let mut hi = [0u8; 16];
    let mut lo = [0u8; 16];
    hi.copy_from_slice(&b[..16]);
    lo.copy_from_slice(&b[16..]);
    Some(Felt { hi: u128::from_be_bytes(hi), lo: u128::from_be_bytes(lo) })
}

/// An entry of an interface.
#[derive(Debug)]
pub enum AbiEntry {
    Function(String),
    L1Handler(String),
    Constructor(String),
    Interface(Vec<AbiEntry>),
    Other,
}

/// The names of the functions, handlers and constructors in the first `n` entries, those of
/// interfaces in their place.
pub open spec fn functions_in(abi: Vec<AbiEntry>, n: nat) -> Seq<Seq<char>>
    decreases abi, n,
{
    if n == 0 || n > abi@.len() {
        Seq::empty()
    } else {
        functions_in(abi, (n - 1) as nat) + entry_functions(abi@[n - 1])
    }
}

/// The names of the functions, handlers and constructors in an entry.
pub open spec fn entry_functions(e: AbiEntry) -> Seq<Seq<char>>
    decreases e, 0nat,
{
    match e {
        AbiEntry::Function(n) => seq![n@],
        AbiEntry::L1Handler(n) => seq![n@],
        AbiEntry::Constructor(n) => seq![n@],
        AbiEntry::Interface(items) => functions_in(items, items@.len()),
        AbiEntry::Other => Seq::empty(),
    }
}

/// Appends the names of the functions, handlers and constructors in the entries.
fn push_functions(abi: &Vec<AbiEntry>, out: &mut Vec<String>)
    ensures
        views(final(out)@) == views(old(out)@) + functions_in(
            *abi,
            abi@.len(),
        ),
    decreases abi,
{
    let ghost start = views(out@);
    let mut i: usize = 0;
    proof {
        assert(start + functions_in(*abi, 0) =~= start);
    }
    while i < abi.len()
        invariant
            i <= abi@.len(),
            views(out@) == start + functions_in(*abi, i as nat),
        decreases abi@.len() - i,
    {
        let ghost before = views(out@);
        proof {
            assert(decreases_to!(*abi => abi[i as int]));
        }
        match &abi[i] {
            AbiEntry::Function(n) => {
                out.push(n.clone());
                proof {
                    assert(views(out@) =~= before + seq![n@]);
                }
            },
            AbiEntry::L1Handler(n) => {
                out.push(n.clone());
                proof {
                    assert(views(out@) =~= before + seq![n@]);
                }
            },
            AbiEntry::Constructor(n) => {
                out.push(n.clone());
                proof {
                    assert(views(out@) =~= before + seq![n@]);
                }
            },
            AbiEntry::Interface(items) => {
                proof {
                    assert(decreases_to!(abi@[i as int] => abi@[i as int]->Interface_0));
                }
                push_functions(items, out);
                proof {
                    assert(views(out@) == before + entry_functions(abi@[i as int]));
                }
            },
            AbiEntry::Other => {
                proof {
                    assert(before + Seq::<Seq<char>>::empty() =~= before);
                }
            },
        }
        proof {
            let k = (i + 1) as nat;
            assert(views(out@) =~= before + entry_functions(abi@[i as int]));
            assert(functions_in(*abi, k) == functions_in(*abi, i as nat) + entry_functions(
                abi@[i as int],
            ));
            assert(views(out@) =~= start + functions_in(*abi, k));
        }
        i = i + 1;
    }
}

/// The names of the functions, handlers and constructors of an interface, those of interfaces
/// within it in their place.
pub fn flatten_abi_funcs_recursive(abi: &Vec<AbiEntry>) -> (r: Vec<String>)
    ensures
        views(r@) == functions_in(*abi, abi@.len()),
{
    let mut out: Vec<String> = Vec::new();
    push_functions(abi, &mut out);
    proof {
        assert(views(Seq::<String>::empty()) + functions_in(*abi, abi@.len())
            =~= functions_in(*abi, abi@.len()));
    }
    out
}

/// An entry point: its selector, and the index of its function.
#[derive(Clone, Copy, Debug, PartialEq, Eq, Structural)]
pub struct EntryPoint {
    pub selector: Felt,
    pub function_idx: u64,
}

/// An entry of an interface of an older class.
#[derive(Debug)]
pub enum LegacyEntry {
    Function(String),
    Other,
}

/// What is kept of a class: its entry points, external ones first, then handlers, then
/// constructors, with the names of its functions; or the entries of an older class.
#[derive(Debug)]
pub enum ClassAbi {
    Sierra { entry_points: Vec<EntryPoint>, functions: Vec<String> },
    Legacy(Vec<LegacyEntry>),
}

/// A class as it is read: its entry points by kind and the entries of its interface; or those of an
/// older class, which may have none.
#[derive(Debug)]
pub enum ReadClass {
    Sierra {
        external: Vec<EntryPoint>,
        l1_handler: Vec<EntryPoint>,
        constructor: Vec<EntryPoint>,
        abi: Vec<AbiEntry>,
    },
    Legacy(Option<Vec<LegacyEntry>>),
}

/// Whether that is what is kept of a class.
pub open spec fn kept_of(read: ReadClass, kept: ClassAbi) -> bool {
    match read {
        ReadClass::Sierra { external, l1_handler, constructor, abi } => {
            kept matches ClassAbi::Sierra { entry_points, functions } && entry_points@ == external@
                + l1_handler@ + constructor@ && views(functions@) == functions_in(abi, abi@.len())
        },
        ReadClass::Legacy(Some(e)) => kept == ClassAbi::Legacy(e),
        ReadClass::Legacy(None) => kept matches ClassAbi::Legacy(e) && e@.len() == 0,
    }
}

/// What is kept of a class.
pub fn class_abi(read: ReadClass) -> (r: ClassAbi)
    ensures
        kept_of(read, r),
{
    match read {
        ReadClass::Sierra { external, l1_handler, constructor, abi } => {
            let mut entry_points: Vec<EntryPoint> = Vec::new();
            push_points(&external, &mut entry_points);
            push_points(&l1_handler, &mut entry_points);
            push_points(&constructor, &mut entry_points);
            proof {
                assert(entry_points@ =~= external@ + l1_handler@ + constructor@);
            }
            ClassAbi::Sierra { entry_points, functions: flatten_abi_funcs_recursive(&abi) }
        },
        ReadClass::Legacy(Some(e)) => ClassAbi::Legacy(e),
        ReadClass::Legacy(None) => ClassAbi::Legacy(Vec::new()),
    }
}

/// Appends entry points.
fn push_points(points: &Vec<EntryPoint>, out: &mut Vec<EntryPoint>)
    ensures
        final(out)@ == old(out)@ + points@,
{
    let ghost start = out@;
    let mut i: usize = 0;
    while i < points.len()
        invariant
            i <= points@.len(),
            out@ =~= start + points@.take(i as int),
        decreases points@.len() - i,
    {
        out.push(points[i]);
        i = i + 1;
    }
    proof {
        assert(points@.take(i as int) =~= points@);
    }
}

/// The first entry point of the selector.
pub open spec fn entry_at(e: Seq<EntryPoint>, selector: Felt) -> Option<u64>
    decreases e.len(),
{
    if e.len() == 0 {
        None
    } else {
        match entry_at(e.drop_last(), selector) {
            Some(i) => Some(i),
            None => if e.last().selector == selector {
                Some(e.last().function_idx)
            } else {
                None
            },
        }
    }
}

/// Whether an older entry is a function of the selector.
pub open spec fn legacy_is(e: LegacyEntry, selector: Felt) -> bool {
    e matches LegacyEntry::Function(n) && entry_selector(n@) == selector
}

/// The name of the first function of the selector.
pub open spec fn legacy_at(e: Seq<LegacyEntry>, selector: Felt) -> Option<Seq<char>>
    decreases e.len(),
{
    if e.len() == 0 {
        None
    } else {
        match legacy_at(e.drop_last(), selector) {
            Some(n) => Some(n),
            None => if legacy_is(e.last(), selector) {
                Some(e.last()->Function_0@)
            } else {
                None
            },
        }
    }
}

/// The name of the entry point of a selector.
pub open spec fn entrypoint_name(class: ClassAbi, selector: Felt) -> Option<Seq<char>> {
    match class {
        ClassAbi::Sierra { entry_points, functions } => match entry_at(entry_points@, selector) {
            Some(i) => if i < functions@.len() {
                Some(functions@[i as int]@)
            } else {
                None
            },
            None => None,
        },
        ClassAbi::Legacy(e) => legacy_at(e@, selector),
    }
}

/// Whether the names of the functions of an older class are of ASCII, up to the first of the
/// selector.
pub open spec fn names_read_ascii(class: ClassAbi, selector: Felt) -> bool {
    class matches ClassAbi::Legacy(e) ==> forall|i: int|
        0 <= i < e@.len() && legacy_at(e@.take(i), selector) is None ==> (
        #[trigger] e@[i] matches LegacyEntry::Function(n) ==> all_ascii(n@))
}

/// What was found among the first entry points is what is found among all.
proof fn entry_stays(e: Seq<EntryPoint>, n: int, selector: Felt)
    requires
        0 <= n <= e.len(),
        entry_at(e.take(n), selector) is Some,
    ensures
        entry_at(e, selector) == entry_at(e.take(n), selector),
    decreases e.len(),
{
    if n == e.len() {
        assert(e.take(n) =~= e);
    } else {
        assert(e.drop_last().take(n) =~= e.take(n));
        entry_stays(e.drop_last(), n, selector);
    }
}

/// What was found among the first functions is what is found among all.
proof fn legacy_stays(e: Seq<LegacyEntry>, n: int, selector: Felt)
    requires
        0 <= n <= e.len(),
        legacy_at(e.take(n), selector) is Some,
    ensures
        legacy_at(e, selector) == legacy_at(e.take(n), selector),
    decreases e.len(),
{
    if n == e.len() {
        assert(e.take(n) =~= e);
    } else {
        assert(e.drop_last().take(n) =~= e.take(n));
        legacy_stays(e.drop_last(), n, selector);
    }
}

/// The name of the entry point of a selector, if the class has one. Of an older class every function
/// up to that one has a name of ASCII.
pub fn get_entrypoint_name_from_class(class: &ClassAbi, selector: Felt) -> (r: Option<String>)
    requires
        names_read_ascii(*class, selector),
    ensures
        match r {
            Some(n) => entrypoint_name(*class, selector) == Some(n@),
            None => entrypoint_name(*class, selector) is None,
        },
{
    match class {
        ClassAbi::Sierra { entry_points, functions } => {
            let mut i: usize = 0;
            let n: usize = functions.len();
            proof {
                assert(entry_points@.take(0) =~= Seq::<EntryPoint>::empty());
            }
            while i < entry_points.len()
                invariant
                    i <= entry_points@.len(),
                    n == functions@.len(),
                    entry_at(entry_points@.take(i as int), selector) is None,
                    *class == (ClassAbi::Sierra {
                        entry_points: *entry_points,
                        functions: *functions,
                    }),
                decreases entry_points@.len() - i,
            {
                proof {
                    assert(entry_points@.take(i + 1).drop_last() =~= entry_points@.take(i as int));
                }
                if entry_points[i].selector == selector {
                    proof {
                        entry_stays(entry_points@, i + 1, selector);
                    }
                    let at: u64 = entry_points[i].function_idx;
                    return if at < n as u64 {
                        Some(functions[at as usize].clone())
                    } else {
                        None
                    };
                }
                i = i + 1;
            }
            proof {
                assert(entry_points@.take(i as int) =~= entry_points@);
            }
            None
        },
        ClassAbi::Legacy(e) => {
            let mut i: usize = 0;
            proof {
                assert(e@.take(0) =~= Seq::<LegacyEntry>::empty());
            }
            while i < e.len()
                invariant
                    i <= e@.len(),
                    legacy_at(e@.take(i as int), selector) is None,
                    *class == ClassAbi::Legacy(*e),
                    names_read_ascii(*class, selector),
                decreases e@.len() - i,
            {
                proof {
                    assert(e@.take(i + 1).drop_last() =~= e@.take(i as int));
                }
                match &e[i] {
                    LegacyEntry::Function(n) => {
                        proof {
                            assert(all_ascii(e@[i as int]->Function_0@));
                        }
                        match selector_from_name(n) {
                            Some(s) => {
                                if s == selector {
                                    proof {
                                        legacy_stays(e@, i + 1, selector);
                                    }
                                    return Some(n.clone());
                                }
                            },
                            None => {},
                        }
                    },
                    LegacyEntry::Other => {},
                }
                i = i + 1;
            }
            proof {
                assert(e@.take(i as int) =~= e@);
            }
            None
        },
    }
}

/// The name of the entry point of a selector, if the class has one; nothing where a name has to be
/// read that is not of ASCII.
pub fn readable_entrypoint_name(class: &ClassAbi, selector: Felt) -> (r: Option<Option<String>>)
    ensures
        r is Some <==> names_read_ascii(*class, selector),
        r matches Some(Some(n)) ==> entrypoint_name(*class, selector) == Some(n@),
        r matches Some(None) ==> entrypoint_name(*class, selector) is None,
{
    match class {
        ClassAbi::Sierra { .. } => {},
        ClassAbi::Legacy(e) => {
            let mut i: usize = 0;
            let mut found = false;
            proof {
                assert(e@.take(0) =~= Seq::<LegacyEntry>::empty());
            }
            while i < e.len() && !found
                invariant
                    i <= e@.len(),
                    *class == ClassAbi::Legacy(*e),
                    found == (legacy_at(e@.take(i as int), selector) is Some),
                    forall|k: int|
                        0 <= k < i && legacy_at(e@.take(k), selector) is None ==> (
                        #[trigger] e@[k] matches LegacyEntry::Function(n) ==> all_ascii(n@)),
                decreases e@.len() - i,
            {
                proof {
                    assert(e@.take(i + 1).drop_last() =~= e@.take(i as int));
                }
                match &e[i] {
                    LegacyEntry::Function(n) => match selector_from_name(n) {
                        Some(s) => {
                            found = s == selector;
                        },
                        None => {
                            proof {
                                let w = e@[i as int];
                                assert(w == LegacyEntry::Function(*n));
                            }
                            return None;
                        },
                    },
                    LegacyEntry::Other => {},
                }
                i = i + 1;
            }
            proof {
                assert forall|k: int|
                    0 <= k < e@.len() && legacy_at(e@.take(k), selector) is None implies (
                #[trigger] e@[k] matches LegacyEntry::Function(n) ==> all_ascii(n@)) by {
                    if k >= i {
                        assert(e@.take(k).take(i as int) =~= e@.take(i as int));
                        legacy_stays(e@.take(k), i as int, selector);
                    }
                }
            }
        },
    }
    Some(get_entrypoint_name_from_class(class, selector))
}

// ---------------------------------------------------------------------------
// Classes of contracts
// ---------------------------------------------------------------------------

/// A class that was read.
#[derive(Debug)]
pub struct KnownClass {
    pub contract_address: Felt,
    pub class_hash: Felt,
    pub class: ClassAbi,
}

/// The classes that were read, by contract.
#[derive(Debug)]
pub struct ContractClassCache {
    pub classes: Vec<KnownClass>,
}

/// The block at which the provider is asked.
#[derive(Clone, Copy, Debug, PartialEq, Eq, Structural)]
pub enum BlockRef {
    Number(u64),
    PreConfirmed,
}

/// How far a class was read.
#[derive(Clone, Copy, Debug, PartialEq, Eq, Structural)]
pub enum ClassStage {
    Begin,
    Hash { block: BlockRef, again: bool },
    Class { class_hash: Felt },
    Done,
}

/// What the provider answers.
#[derive(Clone, Copy, Debug, PartialEq, Eq, Structural)]
pub enum ClassEvent {
    Started { block: BlockRef },
    Hash(Felt),
    BlockNotFound,
    Failed,
    /// The class was read.
    Class,
}

/// What is asked of the provider.
#[derive(Clone, Copy, Debug, PartialEq, Eq, Structural)]
pub enum ClassAction {
    Ignore,
    /// The class is known already.
    Known,
    AskHash { block: BlockRef },
    AskClass { block: BlockRef },
    /// The class is to be kept under its hash.
    Keep { class_hash: Felt },
    Fail,
}

/// Where the class of a contract stands.
pub open spec fn class_at(c: Seq<KnownClass>, address: Felt) -> Option<int>
    decreases c.len(),
{
    if c.len() == 0 {
        None
    } else {
        match class_at(c.drop_last(), address) {
            Some(i) => Some(i),
            None => if c.last().contract_address == address {
                Some(c.len() - 1)
            } else {
                None
            },
        }
    }
}

/// The next step to the class of a contract: its hash at the block, or, where the block is not
/// known, at the block that is not yet confirmed; then the class at that block.
pub open spec fn class_next(known: bool, stage: ClassStage, event: ClassEvent) -> (
    ClassStage,
    ClassAction,
) {
    match (stage, event) {
        (ClassStage::Begin, ClassEvent::Started { block }) => if known {
            (ClassStage::Done, ClassAction::Known)
        } else {
            (ClassStage::Hash { block, again: false }, ClassAction::AskHash { block })
        },
        (ClassStage::Hash { block, .. }, ClassEvent::Hash(h)) => (
            ClassStage::Class { class_hash: h },
            ClassAction::AskClass { block },
        ),
        (ClassStage::Hash { again: false, .. }, ClassEvent::BlockNotFound) => (
            ClassStage::Hash { block: BlockRef::PreConfirmed, again: true },
            ClassAction::AskHash { block: BlockRef::PreConfirmed },
        ),
        (ClassStage::Hash { .. }, ClassEvent::BlockNotFound) => (
            ClassStage::Done,
            ClassAction::Fail,
        ),
        (ClassStage::Hash { .. }, ClassEvent::Failed) => (ClassStage::Done, ClassAction::Fail),
        (ClassStage::Class { class_hash }, ClassEvent::Class) => (
            ClassStage::Done,
            ClassAction::Keep { class_hash },
        ),
        (ClassStage::Class { .. }, ClassEvent::Failed) => (ClassStage::Done, ClassAction::Fail),
        (ClassStage::Class { .. }, ClassEvent::BlockNotFound) => (
            ClassStage::Done,
            ClassAction::Fail,
        ),
        _ => (stage, ClassAction::Ignore),
    }
}

impl ContractClassCache {
    /// The cache without classes.
    pub fn new() -> (r: ContractClassCache)
        ensures
            r.classes@.len() == 0,
    {
        ContractClassCache { classes: Vec::new() }
    }

    /// Index of the class of a contract.
    fn find(&self, address: Felt) -> (r: Option<usize>)
        ensures
            match r {
                Some(i) => i < self.classes@.len() && class_at(self.classes@, address) == Some(
                    i as int,
                ),
                None => class_at(self.classes@, address) is None,
            },
    {
        let mut i: usize = 0;
        let mut found: Option<usize> = None;
        while i < self.classes.len()
            invariant
                i <= self.classes@.len(),
                match found {
                    Some(k) => class_at(self.classes@.take(i as int), address) == Some(k as int)
                        && k < i,
                    None => class_at(self.classes@.take(i as int), address) is None,
                },
            decreases self.classes@.len() - i,
        {
            proof {
                assert(self.classes@.take(i + 1).drop_last() =~= self.classes@.take(i as int));
            }
            if found.is_none() && self.classes[i].contract_address == address {
                found = Some(i);
            }
            i = i + 1;
        }
        proof {
            assert(self.classes@.take(i as int) =~= self.classes@);
        }
        found
    }

    /// The class of a contract that was read already.
    pub fn cached(&self, contract_address: Felt) -> (r: Option<&ClassAbi>)
        ensures
            match r {
                Some(c) => class_at(self.classes@, contract_address) is Some && *c
                    == self.classes@[class_at(self.classes@, contract_address)->0].class,
                None => class_at(self.classes@, contract_address) is None,
            },
    {
        match self.find(contract_address) {
            Some(i) => Some(&self.classes[i].class),
            None => None,
        }
    }

    /// The next step to the class of a contract. A class that was read is not asked for again.
    pub fn get(&self, contract_address: Felt, stage: ClassStage, event: ClassEvent) -> (r: (
        ClassStage,
        ClassAction,
    ))
        ensures
            r == class_next(class_at(self.classes@, contract_address) is Some, stage, event),
    {
        match (stage, event) {
            (ClassStage::Begin, ClassEvent::Started { block }) => if self.find(
                contract_address,
            ).is_some() {
                (ClassStage::Done, ClassAction::Known)
            } else {
                (ClassStage::Hash { block, again: false }, ClassAction::AskHash { block })
            },
            (ClassStage::Hash { block, .. }, ClassEvent::Hash(h)) => (
                ClassStage::Class { class_hash: h },
                ClassAction::AskClass { block },
            ),
            (ClassStage::Hash { again: false, .. }, ClassEvent::BlockNotFound) => (
                ClassStage::Hash { block: BlockRef::PreConfirmed, again: true },
                ClassAction::AskHash { block: BlockRef::PreConfirmed },
            ),
            (ClassStage::Hash { .. }, ClassEvent::BlockNotFound) => (
                ClassStage::Done,
                ClassAction::Fail,
            ),
            (ClassStage::Hash { .. }, ClassEvent::Failed) => (ClassStage::Done, ClassAction::Fail),
            (ClassStage::Class { class_hash }, ClassEvent::Class) => (
                ClassStage::Done,
                ClassAction::Keep { class_hash },
            ),
            (ClassStage::Class { .. }, ClassEvent::Failed) => (ClassStage::Done, ClassAction::Fail),
            (ClassStage::Class { .. }, ClassEvent::BlockNotFound) => (
                ClassStage::Done,
                ClassAction::Fail,
            ),
            _ => (stage, ClassAction::Ignore),
        }
    }

    /// Keeps the class of a contract, in the place of one that is kept already.
    pub fn insert(&mut self, contract_address: Felt, class_hash: Felt, class: ClassAbi)
        ensures
            final(self).classes@ == with_class(
                old(self).classes@,
                KnownClass { contract_address, class_hash, class },
            ),
            known(final(self).classes@, contract_address) == Some((class_hash, class)),
            forall|a: Felt|
                a != contract_address ==> #[trigger] known(final(self).classes@, a)
                    == known(old(self).classes@, a),
    {
        let ghost before = self.classes@;
        match self.find(contract_address) {
            Some(i) => {
                proof {
                    class_found(before, contract_address);
                }
                self.classes.set(i, KnownClass { contract_address, class_hash, class });
            },
            None => {
                self.classes.push(KnownClass { contract_address, class_hash, class });
            },
        }
        proof {
            let after = self.classes@;
            class_found(before, contract_address);
            if class_at(before, contract_address) is None {
                assert(after.drop_last() =~= before);
            }
            assert forall|a: Felt| #[trigger] class_at(after, a) == (if a == contract_address
                && class_at(before, a) is None {
                Some(before.len() as int)
            } else {
                class_at(before, a)
            }) by {
                if class_at(before, contract_address) is Some {
                    class_kept(before, after, a);
                }
            }
            assert forall|a: Felt| a != contract_address implies #[trigger] known(after, a)
                == known(before, a) by {
                class_found(before, a);
                assert(class_at(after, a) == class_at(before, a));
            }
            assert(class_at(after, contract_address) is Some);
        }
    }
}

/// The class of a contract, with its hash, if it was read.
pub open spec fn known(c: Seq<KnownClass>, address: Felt) -> Option<(Felt, ClassAbi)> {
    match class_at(c, address) {
        Some(i) => Some((c[i].class_hash, c[i].class)),
        None => None,
    }
}

/// The classes with one more, in the place of that of its contract where there is one.
pub open spec fn with_class(c: Seq<KnownClass>, class: KnownClass) -> Seq<KnownClass> {
    match class_at(c, class.contract_address) {
        Some(i) => c.update(i, class),
        None => c.push(class),
    }
}

/// A class that is found is that of the contract.
proof fn class_found(c: Seq<KnownClass>, address: Felt)
    ensures
        class_at(c, address) matches Some(i) ==> 0 <= i < c.len() && c[i].contract_address
            == address,
    decreases c.len(),
{
    if c.len() > 0 {
        class_found(c.drop_last(), address);
    }
}

/// Where the contracts stay, classes are found where they were.
proof fn class_kept(a: Seq<KnownClass>, b: Seq<KnownClass>, address: Felt)
    requires
        a.len() == b.len(),
        forall|i: int| 0 <= i < a.len() ==> (#[trigger] a[i]).contract_address == b[i].contract_address,
    ensures
        class_at(a, address) == class_at(b, address),
    decreases a.len(),
{
    if a.len() > 0 {
        assert forall|i: int| 0 <= i < a.len() - 1 implies (
        #[trigger] a.drop_last()[i]).contract_address == b.drop_last()[i].contract_address by {
            assert(a[i].contract_address == b[i].contract_address);
        }
        class_kept(a.drop_last(), b.drop_last(), address);
        assert(a[a.len() - 1].contract_address == b[a.len() - 1].contract_address);
    }
}

} // verus!

//! Whether an entity meets the clause of a subscriber.
use vstd::prelude::*;
use vstd::string::*;
use crate::digits::{parse_usize, parsed};
use crate::felt::Felt;
use crate::schema::{primitive_less, ty_name, Enum, EnumOption, Member, Primitive, Struct, Ty};
use crate::text::{
    chars_of, find, find_char, less, split, split_on, split_once, split_once_on, split_single,
    str_eq, string_of, text_less, views,
};

verus! {

/// How the number of keys takes part in matching a key pattern.
#[derive(Clone, Copy, Debug, PartialEq, Eq, Structural)]
pub enum PatternMatching {
    /// The entity has exactly as many keys as the pattern.
    FixedLen,
    /// The entity may have more or fewer keys than the pattern.
    VariableLen,
}

/// A pattern over the keys of an entity, for some models or for all.
#[derive(Debug)]
pub struct KeysClause {
    /// The keys asked for, absent where any key will do.
    pub keys: Vec<Option<Felt>>,
    pub pattern_matching: PatternMatching,
    /// Tags `namespace-name` of models; none stands for all.
    pub models: Vec<String>,
}

/// How a member is compared with the value of a clause.
#[derive(Clone, Copy, Debug, PartialEq, Eq, Structural)]
pub enum ComparisonOperator {
    Eq,
    Neq,
    Gt,
    Gte,
    Lt,
    Lte,
    In,
    NotIn,
    Contains,
    ContainsAll,
    ContainsAny,
    ArrayLengthEq,
    ArrayLengthGt,
    ArrayLengthLt,
}

/// A value that a member is compared with.
#[derive(Debug)]
pub enum MemberValue {
    Primitive(Primitive),
    String(String),
    List(Vec<MemberValue>),
}

/// A condition on one member of a model.
#[derive(Debug)]
pub struct MemberClause {
    pub model: String,
    /// A path of names separated by dots, with an index in brackets where an array is met.
    pub member: String,
    pub operator: ComparisonOperator,
    pub value: MemberValue,
}

/// How the clauses of a composite clause are combined.
#[derive(Clone, Copy, Debug, PartialEq, Eq, Structural)]
pub enum LogicalOperator {
    And,
    Or,
}

/// Several clauses taken together.
#[derive(Debug)]
pub struct CompositeClause {
    pub operator: LogicalOperator,
    pub clauses: Vec<Clause>,
}

/// What a subscriber asks of an entity.
#[derive(Debug)]
pub enum Clause {
    HashedKeys(Vec<Felt>),
    Keys(KeysClause),
    Member(MemberClause),
    Composite(CompositeClause),
}

// ---------------------------------------------------------------------------
// Keys
// ---------------------------------------------------------------------------

/// Whether the keys follow the pattern: every key asked for at a place that the entity has is the
/// key at that place, and the lengths agree where the pattern is of fixed length.
pub open spec fn keys_follow(keys: Seq<Felt>, clause: KeysClause) -> bool {
    &&& clause.pattern_matching == PatternMatching::FixedLen ==> keys.len() == clause.keys@.len()
    &&& forall|i: int|
        0 <= i < keys.len() && i < clause.keys@.len() && clause.keys@[i] is Some ==> #[trigger] keys[i]
            == clause.keys@[i]->0
}

/// Whether the keys follow the pattern of the clause.
fn follows(keys: &[Felt], clause: &KeysClause) -> (r: bool)
    ensures
        r == keys_follow(keys@, *clause),
{
    if clause.pattern_matching == PatternMatching::FixedLen && keys.len() != clause.keys.len() {
        return false;
    }
    let mut i: usize = 0;
    while i < keys.len()
        invariant
            i <= keys@.len(),
            forall|k: int|
                0 <= k < i && k < clause.keys@.len() && clause.keys@[k] is Some
                    ==> #[trigger] keys@[k] == clause.keys@[k]->0,
        decreases keys@.len() - i,
    {
        if i < clause.keys.len() {
            match clause.keys[i] {
                Some(k) => {
                    if keys[i] != k {
                        return false;
                    }
                },
                None => {},
            }
        }
        i = i + 1;
    }
    true
}

/// Whether the keys follow one of the patterns; with no pattern, all keys do.
pub fn match_keys(keys: &[Felt], clauses: &[KeysClause]) -> (r: bool)
    ensures
        r == (clauses@.len() == 0 || exists|i: int|
            0 <= i < clauses@.len() && keys_follow(keys@, #[trigger] clauses@[i])),
{
    if clauses.len() == 0 {
        return true;
    }
    let mut i: usize = 0;
    while i < clauses.len()
        invariant
            i <= clauses@.len(),
            forall|k: int| 0 <= k < i ==> !keys_follow(keys@, #[trigger] clauses@[k]),
        decreases clauses@.len() - i,
    {
        if follows(keys, &clauses[i]) {
            return true;
        }
        i = i + 1;
    }
    false
}

// ---------------------------------------------------------------------------
// Models
// ---------------------------------------------------------------------------

/// Whether `pattern` lets `name` through: an empty pattern and a star let everything through.
pub open spec fn wild(pattern: Seq<char>, name: Seq<char>) -> bool {
    pattern.len() == 0 || pattern == "*"@ || pattern == name
}

/// The namespace and the name of a model's tag; without a dash all of it is the name.
pub open spec fn tag_of(name: Seq<char>) -> (Seq<char>, Seq<char>) {
    match split_once(name, '-') {
        Some(p) => p,
        None => (Seq::empty(), name),
    }
}

/// The namespace and the name that a clause asks for; without a dash all of it is the namespace.
pub open spec fn tag_asked(model: Seq<char>) -> (Seq<char>, Seq<char>) {
    match split_once(model, '-') {
        Some(p) => p,
        None => (model, Seq::empty()),
    }
}

/// Whether the model asked for covers the model of that tag.
pub open spec fn model_covers(asked: Seq<char>, name: Seq<char>) -> bool {
    asked.len() == 0 || (wild(tag_asked(asked).0, tag_of(name).0) && wild(
        tag_asked(asked).1,
        tag_of(name).1,
    ))
}

/// Whether one of the models asked for covers the updated model; with none asked for, any does.
pub open spec fn models_cover(asked: Seq<String>, updated: Option<Ty>) -> bool {
    asked.len() == 0 || (updated is Some && exists|i: int|
        0 <= i < asked.len() && model_covers((#[trigger] asked[i])@, ty_name(updated->0)))
}

/// Whether `pattern` lets `name` through.
fn lets_through(pattern: &str, name: &str) -> (r: bool)
    ensures
        r == wild(pattern@, name@),
{
    pattern.is_empty() || str_eq(pattern, "*") || str_eq(pattern, name)
}

/// Whether the model asked for covers the model with the namespace and name.
fn covers(asked: &str, namespace: &str, name: &str) -> (r: bool)
    ensures
        r == (asked@.len() == 0 || (wild(tag_asked(asked@).0, namespace@) && wild(
            tag_asked(asked@).1,
            name@,
        ))),
{
    if asked.is_empty() {
        return true;
    }
    match split_once_on(asked, '-') {
        Some(p) => lets_through(&p.0, namespace) && lets_through(&p.1, name),
        None => {
            proof {
                assert(wild(Seq::empty(), name@));
            }
            lets_through(asked, namespace)
        },
    }
}

/// Whether one of the models asked for covers the updated model.
fn any_covers(asked: &Vec<String>, updated: &Option<Ty>) -> (r: bool)
    ensures
        r == models_cover(asked@, *updated),
{
    if asked.len() == 0 {
        return true;
    }
    let full = match updated {
        Some(ty) => ty.name(),
        None => {
            return false;
        },
    };
    let (namespace, name) = match split_once_on(&full, '-') {
        Some(p) => p,
        None => (String::new(), full.clone()),
    };
    proof {
        assert((namespace@, name@) == tag_of(full@)) by {
            if split_once(full@, '-') is None {
                assert(namespace@ =~= Seq::<char>::empty());
            }
        }
    }
    let mut i: usize = 0;
    while i < asked.len()
        invariant
            i <= asked@.len(),
            updated is Some,
            asked@.len() > 0,
            tag_of(ty_name(updated->0)) == (namespace@, name@),
            forall|k: int|
                0 <= k < i ==> !model_covers((#[trigger] asked@[k])@, ty_name(updated->0)),
        decreases asked@.len() - i,
    {
        if covers(&asked[i], &namespace, &name) {
            proof {
                assert(model_covers(asked@[i as int]@, ty_name(updated->0)));
            }
            return true;
        }
        i = i + 1;
    }
    false
}

// ---------------------------------------------------------------------------
// Members
// ---------------------------------------------------------------------------

/// Whether the brackets of a member path can be read: the first opening bracket, if a closing one
/// exists, stands before the first closing one.
pub open spec fn brackets_in_order(member: Seq<char>) -> bool {
    match (find(member, '['), find(member, ']')) {
        (Some(a), Some(b)) => a < b,
        _ => true,
    }
}

/// The path of names and the array index that a member text writes. What stands between the
/// brackets counts as an index only where it is a number.
pub open spec fn member_path(member: Seq<char>) -> (Seq<char>, Option<nat>) {
    match (find(member, '['), find(member, ']')) {
        (Some(a), Some(b)) => match parsed(member.subrange(a + 1, b), 10) {
            Some(n) => if n <= usize::MAX {
                (member.take(a), Some(n))
            } else {
                (member, None)
            },
            None => (member, None),
        },
        _ => (member, None),
    }
}

/// The place of the first member of that name.
pub open spec fn member_at(children: Seq<Member>, name: Seq<char>) -> Option<int>
    decreases children.len(),
{
    if children.len() == 0 {
        None
    } else {
        match member_at(children.drop_last(), name) {
            Some(i) => Some(i),
            None => if children.last().name@ == name {
                Some(children.len() - 1)
            } else {
                None
            },
        }
    }
}

/// The place of the first variant of that name.
pub open spec fn option_at(options: Seq<EnumOption>, name: Seq<char>) -> Option<int>
    decreases options.len(),
{
    if options.len() == 0 {
        None
    } else {
        match option_at(options.drop_last(), name) {
            Some(i) => Some(i),
            None => if options.last().name@ == name {
                Some(options.len() - 1)
            } else {
                None
            },
        }
    }
}

/// One step of a path: the member of a struct, the element of a tuple or of an array, or what the
/// selected variant of an enum holds.
pub open spec fn step(ty: Ty, part: Seq<char>, index: Option<nat>) -> Option<Ty> {
    match ty {
        Ty::Struct(s) => match member_at(s.children@, part) {
            Some(i) => Some(s.children@[i].ty),
            None => None,
        },
        Ty::Tuple(tys) => match parsed(part, 10) {
            Some(n) => if n < tys@.len() {
                Some(tys@[n as int])
            } else {
                None
            },
            None => None,
        },
        Ty::Enum(e) => match option_at(e.options@, part) {
            Some(i) => if e.option == Some((i % 256) as u8) {
                Some(e.options@[i].ty)
            } else {
                None
            },
            None => None,
        },
        Ty::Array(tys) => match index {
            Some(n) => if n < tys@.len() {
                Some(tys@[n as int])
            } else {
                None
            },
            None => None,
        },
        Ty::FixedSizeArray(tys, _) => match index {
            Some(n) => if n < tys@.len() {
                Some(tys@[n as int])
            } else {
                None
            },
            None => None,
        },
        Ty::ByteArray(_) => None,
        Ty::Primitive(_) => None,
    }
}

/// What stands at the end of a path: of an array, where an index is given, the element there, and
/// else the value itself.
pub open spec fn indexed(ty: Ty, index: Option<nat>) -> Option<Ty> {
    match (ty, index) {
        (Ty::Array(tys), Some(n)) => if n < tys@.len() {
            Some(tys@[n as int])
        } else {
            None
        },
        (Ty::FixedSizeArray(tys, _), Some(n)) => if n < tys@.len() {
            Some(tys@[n as int])
        } else {
            None
        },
        _ => Some(ty),
    }
}

/// Whether the value is an array.
pub open spec fn is_array(ty: Ty) -> bool {
    ty is Array || ty is FixedSizeArray
}

/// What a path leads to. An enum that is met at the last part of the path is itself what is
/// compared; an array at the end of the path is compared as a whole only where no index is given, or
/// where the index was taken for an array on the way.
pub open spec fn resolve(
    ty: Ty,
    parts: Seq<Seq<char>>,
    index: Option<nat>,
    taken: bool,
) -> Option<Ty>
    decreases parts.len(),
{
    if parts.len() == 1 && ty is Enum {
        Some(ty)
    } else if parts.len() == 0 {
        if taken {
            Some(ty)
        } else {
            indexed(ty, index)
        }
    } else {
        match step(ty, parts[0], index) {
            Some(next) => resolve(next, parts.skip(1), index, taken || is_array(ty)),
            None => None,
        }
    }
}

/// Whether a primitive stands in the list.
pub open spec fn lists_primitive(values: Seq<MemberValue>, p: Primitive) -> bool {
    exists|i: int| 0 <= i < values.len() && #[trigger] values[i] == MemberValue::Primitive(p)
}

/// Whether a text stands in the list.
pub open spec fn lists_text(values: Seq<MemberValue>, s: Seq<char>) -> bool {
    exists|i: int|
        0 <= i < values.len() && (#[trigger] values[i] matches MemberValue::String(t) && t@ == s)
}

/// Whether an element of an array is the value.
pub open spec fn element_is(elem: Ty, value: MemberValue) -> bool {
    match (elem, value) {
        (Ty::Primitive(p), MemberValue::Primitive(v)) => p == v,
        (Ty::ByteArray(s), MemberValue::String(v)) => s@ == v@,
        _ => false,
    }
}

/// Whether the value is an element of the array.
pub open spec fn has_element(elems: Seq<Ty>, value: MemberValue) -> bool {
    exists|i: int| 0 <= i < elems.len() && element_is(#[trigger] elems[i], value)
}

/// Whether a primitive meets the comparison.
pub open spec fn primitive_meets(p: Primitive, op: ComparisonOperator, value: MemberValue) -> bool {
    match (op, value) {
        (ComparisonOperator::Eq, MemberValue::Primitive(v)) => p == v,
        (ComparisonOperator::Neq, MemberValue::Primitive(v)) => p != v,
        (ComparisonOperator::Gt, MemberValue::Primitive(v)) => primitive_less(v, p),
        (ComparisonOperator::Gte, MemberValue::Primitive(v)) => !primitive_less(p, v),
        (ComparisonOperator::Lt, MemberValue::Primitive(v)) => primitive_less(p, v),
        (ComparisonOperator::Lte, MemberValue::Primitive(v)) => !primitive_less(v, p),
        (ComparisonOperator::In, MemberValue::List(l)) => lists_primitive(l@, p),
        (ComparisonOperator::NotIn, MemberValue::List(l)) => !lists_primitive(l@, p),
        _ => false,
    }
}

/// Whether a text meets the comparison.
pub open spec fn text_meets(s: Seq<char>, op: ComparisonOperator, value: MemberValue) -> bool {
    match (op, value) {
        (ComparisonOperator::Eq, MemberValue::String(v)) => s == v@,
        (ComparisonOperator::Neq, MemberValue::String(v)) => s != v@,
        (ComparisonOperator::Gt, MemberValue::String(v)) => text_less(v@, s),
        (ComparisonOperator::Gte, MemberValue::String(v)) => !text_less(s, v@),
        (ComparisonOperator::Lt, MemberValue::String(v)) => text_less(s, v@),
        (ComparisonOperator::Lte, MemberValue::String(v)) => !text_less(v@, s),
        (ComparisonOperator::In, MemberValue::List(l)) => lists_text(l@, s),
        (ComparisonOperator::NotIn, MemberValue::List(l)) => !lists_text(l@, s),
        _ => false,
    }
}

/// Whether an enum meets the comparison: its selected variant is compared by name.
pub open spec fn enum_meets(e: Enum, op: ComparisonOperator, value: MemberValue) -> bool {
    match e.selected() {
        Some(o) => match op {
            ComparisonOperator::Eq | ComparisonOperator::Neq | ComparisonOperator::In
            | ComparisonOperator::NotIn => text_meets(o.name@, op, value),
            _ => false,
        },
        None => false,
    }
}

/// Whether an array meets the comparison.
pub open spec fn array_meets(elems: Seq<Ty>, op: ComparisonOperator, value: MemberValue) -> bool {
    match (op, value) {
        (ComparisonOperator::Contains, MemberValue::List(_)) => false,
        (ComparisonOperator::Contains, _) => has_element(elems, value),
        (ComparisonOperator::ContainsAll, MemberValue::List(l)) => forall|j: int|
            0 <= j < l@.len() ==> has_element(elems, #[trigger] l@[j]),
        (ComparisonOperator::ContainsAny, MemberValue::List(l)) => exists|j: int|
            0 <= j < l@.len() && has_element(elems, #[trigger] l@[j]),
        (ComparisonOperator::ArrayLengthEq, MemberValue::Primitive(Primitive::U32(Some(n)))) =>
            elems.len() == n,
        (ComparisonOperator::ArrayLengthGt, MemberValue::Primitive(Primitive::U32(Some(n)))) =>
            elems.len() > n,
        (ComparisonOperator::ArrayLengthLt, MemberValue::Primitive(Primitive::U32(Some(n)))) =>
            elems.len() < n,
        _ => false,
    }
}

/// Whether a value meets the comparison.
pub open spec fn ty_meets(ty: Ty, op: ComparisonOperator, value: MemberValue) -> bool {
    match ty {
        Ty::Primitive(p) => primitive_meets(p, op, value),
        Ty::ByteArray(s) => text_meets(s@, op, value),
        Ty::Enum(e) => enum_meets(e, op, value),
        Ty::Array(tys) => array_meets(tys@, op, value),
        Ty::FixedSizeArray(tys, _) => array_meets(tys@, op, value),
        Ty::Struct(_) => false,
        Ty::Tuple(_) => false,
    }
}

/// Whether the updated model meets the condition on one of its members.
pub open spec fn member_meets(updated: Option<Ty>, clause: MemberClause) -> bool {
    updated is Some && ty_name(updated->0) == clause.model@ && {
        let (path, index) = member_path(clause.member@);
        match resolve(updated->0, split(path, '.'), index, false) {
            Some(ty) => ty_meets(ty, clause.operator, clause.value),
            None => false,
        }
    }
}

/// Whether the entity meets the clause.
pub open spec fn entity_matches(
    id: Felt,
    keys: Seq<Felt>,
    updated: Option<Ty>,
    clause: Clause,
) -> bool
    decreases clause,
{
    match clause {
        Clause::HashedKeys(hashed) => hashed@.len() == 0 || hashed@.contains(id),
        Clause::Keys(k) => models_cover(k.models@, updated) && keys_follow(keys, k),
        Clause::Member(m) => member_meets(updated, m),
        Clause::Composite(c) => match c.operator {
            LogicalOperator::And => forall|i: int|
                0 <= i < c.clauses@.len() ==> entity_matches(
                    id,
                    keys,
                    updated,
                    #[trigger] c.clauses[i],
                ),
            LogicalOperator::Or => exists|i: int|
                0 <= i < c.clauses@.len() && entity_matches(
                    id,
                    keys,
                    updated,
                    #[trigger] c.clauses[i],
                ),
        },
    }
}

/// Whether the clause can be evaluated: the brackets are in order in every member path that is
/// read. A path is read when the clause is for the updated model; a composite clause is read from
/// its first clause up to the one that decides it.
pub open spec fn clause_readable(
    id: Felt,
    keys: Seq<Felt>,
    updated: Option<Ty>,
    clause: Clause,
) -> bool
    decreases clause,
{
    match clause {
        Clause::HashedKeys(_) => true,
        Clause::Keys(_) => true,
        Clause::Member(m) => updated is Some && ty_name(updated->0) == m.model@
            ==> brackets_in_order(m.member@),
        Clause::Composite(c) => forall|i: int|
            0 <= i < c.clauses@.len() && (forall|j: int|
                0 <= j < i ==> entity_matches(id, keys, updated, #[trigger] c.clauses@[j]) == (
                c.operator == LogicalOperator::And)) ==> clause_readable(
                id,
                keys,
                updated,
                #[trigger] c.clauses[i],
            ),
    }
}

/// Index of the first member of that name.
pub fn find_member(children: &Vec<Member>, name: &str) -> (r: Option<usize>)
    ensures
        match r {
            Some(i) => member_at(children@, name@) == Some(i as int) && i < children@.len(),
            None => member_at(children@, name@) is None,
        },
{
    let mut i: usize = 0;
    let mut found: Option<usize> = None;
    while i < children.len()
        invariant
            i <= children@.len(),
            match found {
                Some(k) => member_at(children@.take(i as int), name@) == Some(k as int) && k < i,
                None => member_at(children@.take(i as int), name@) is None,
            },
        decreases children@.len() - i,
    {
        proof {
            assert(children@.take(i + 1).drop_last() =~= children@.take(i as int));
        }
        if found.is_none() && str_eq(&children[i].name, name) {
            found = Some(i);
        }
        i = i + 1;
    }
    proof {
        assert(children@.take(i as int) =~= children@);
    }
    found
}

/// Index of the first variant of that name.
pub fn find_option(options: &Vec<EnumOption>, name: &str) -> (r: Option<usize>)
    ensures
        match r {
            Some(i) => option_at(options@, name@) == Some(i as int) && i < options@.len(),
            None => option_at(options@, name@) is None,
        },
{
    let mut i: usize = 0;
    let mut found: Option<usize> = None;
    while i < options.len()
        invariant
            i <= options@.len(),
            match found {
                Some(k) => option_at(options@.take(i as int), name@) == Some(k as int) && k < i,
                None => option_at(options@.take(i as int), name@) is None,
            },
        decreases options@.len() - i,
    {
        proof {
            assert(options@.take(i + 1).drop_last() =~= options@.take(i as int));
        }
        if found.is_none() && str_eq(&options[i].name, name) {
            found = Some(i);
        }
        i = i + 1;
    }
    proof {
        assert(options@.take(i as int) =~= options@);
    }
    found
}

/// The element at an optional index.
fn element<'a>(tys: &'a Vec<Ty>, index: Option<usize>) -> (r: Option<&'a Ty>)
    ensures
        match (r, index) {
            (Some(t), Some(n)) => n < tys@.len() && *t == tys@[n as int],
            (Some(_), None) => false,
            (None, Some(n)) => n >= tys@.len(),
            (None, None) => true,
        },
{
    match index {
        Some(n) => if n < tys.len() {
            Some(&tys[n])
        } else {
            None
        },
        None => None,
    }
}

/// The index as a number.
pub open spec fn index_view(index: Option<usize>) -> Option<nat> {
    match index {
        Some(n) => Some(n as nat),
        None => None,
    }
}

/// One step of a path.
fn step_into<'a>(ty: &'a Ty, part: &str, index: Option<usize>) -> (r: Option<&'a Ty>)
    ensures
        match r {
            Some(t) => step(*ty, part@, index_view(index)) == Some(*t),
            None => step(*ty, part@, index_view(index)) is None,
        },
{
    match ty {
        Ty::Struct(s) => match find_member(&s.children, part) {
            Some(i) => Some(&s.children[i].ty),
            None => None,
        },
        Ty::Tuple(tys) => {
            proof {
                assert(tys.len() == tys@.len());
            }
            element(tys, parse_usize(part))
        },
        Ty::Enum(e) => match find_option(&e.options, part) {
            Some(i) => match e.option {
                Some(o) => if o as usize == i % 256 {
                    proof {
                        assert((i as int % 256) as u8 == o);
                    }
                    Some(&e.options[i].ty)
                } else {
                    None
                },
                None => None,
            },
            None => None,
        },
        Ty::Array(tys) => element(tys, index),
        Ty::FixedSizeArray(tys, _) => element(tys, index),
        Ty::ByteArray(_) => None,
        Ty::Primitive(_) => None,
    }
}

/// What a path leads to.
fn resolve_path<'a>(ty: &'a Ty, parts: &Vec<String>, index: Option<usize>) -> (r: Option<&'a Ty>)
    ensures
        match r {
            Some(t) => resolve(*ty, views(parts@), index_view(index), false) == Some(*t),
            None => resolve(*ty, views(parts@), index_view(index), false) is None,
        },
{
    let mut current: &Ty = ty;
    let mut taken = false;
    let mut i: usize = 0;
    let ghost names = views(parts@);
    proof {
        assert(names.skip(0) =~= names);
    }
    while i < parts.len()
        invariant
            i <= parts@.len(),
            names == views(parts@),
            resolve(*current, names.skip(i as int), index_view(index), taken) == resolve(
                *ty,
                names,
                index_view(index),
                false,
            ),
        decreases parts@.len() - i,
    {
        let ghost rest = names.skip(i as int);
        proof {
            assert(rest[0] == parts@[i as int]@);
            assert(rest.skip(1) =~= names.skip(i + 1));
        }
        match current {
            Ty::Enum(_) => {
                if i == parts.len() - 1 {
                    return Some(current);
                }
            },
            _ => {},
        }
        let through = match current {
            Ty::Array(_) => true,
            Ty::FixedSizeArray(_, _) => true,
            _ => false,
        };
        match step_into(current, &parts[i], index) {
            Some(next) => {
                current = next;
                taken = taken || through;
            },
            None => {
                return None;
            },
        }
        i = i + 1;
    }
    proof {
        assert(names.skip(i as int).len() == 0);
    }
    if taken {
        return Some(current);
    }
    match (current, index) {
        (Ty::Array(tys), Some(_)) => element(tys, index),
        (Ty::FixedSizeArray(tys, _), Some(_)) => element(tys, index),
        _ => Some(current),
    }
}

/// Whether a primitive stands in the list.
fn list_has_primitive(values: &Vec<MemberValue>, p: &Primitive) -> (r: bool)
    ensures
        r == lists_primitive(values@, *p),
{
    let mut i: usize = 0;
    while i < values.len()
        invariant
            i <= values@.len(),
            forall|k: int| 0 <= k < i ==> #[trigger] values@[k] != MemberValue::Primitive(*p),
        decreases values@.len() - i,
    {
        match &values[i] {
            MemberValue::Primitive(v) => {
                if *v == *p {
                    return true;
                }
            },
            _ => {},
        }
        i = i + 1;
    }
    false
}

/// Whether a text stands in the list.
fn list_has_text(values: &Vec<MemberValue>, s: &str) -> (r: bool)
    ensures
        r == lists_text(values@, s@),
{
    let mut i: usize = 0;
    while i < values.len()
        invariant
            i <= values@.len(),
            forall|k: int|
                0 <= k < i ==> !(#[trigger] values@[k] matches MemberValue::String(t) && t@ == s@),
        decreases values@.len() - i,
    {
        match &values[i] {
            MemberValue::String(v) => {
                if str_eq(v, s) {
                    return true;
                }
            },
            _ => {},
        }
        i = i + 1;
    }
    false
}

/// Whether the value is an element of the array.
fn array_has(elems: &Vec<Ty>, value: &MemberValue) -> (r: bool)
    ensures
        r == has_element(elems@, *value),
{
    let mut i: usize = 0;
    while i < elems.len()
        invariant
            i <= elems@.len(),
            forall|k: int| 0 <= k < i ==> !element_is(#[trigger] elems@[k], *value),
        decreases elems@.len() - i,
    {
        let same = match (&elems[i], value) {
            (Ty::Primitive(p), MemberValue::Primitive(v)) => *p == *v,
            (Ty::ByteArray(s), MemberValue::String(v)) => str_eq(s, v),
            _ => false,
        };
        if same {
            return true;
        }
        i = i + 1;
    }
    false
}

/// Whether all of the values, or any of them, are elements of the array.
fn array_has_list(elems: &Vec<Ty>, values: &Vec<MemberValue>, all: bool) -> (r: bool)
    ensures
        all ==> r == forall|j: int|
            0 <= j < values@.len() ==> has_element(elems@, #[trigger] values@[j]),
        !all ==> r == exists|j: int|
            0 <= j < values@.len() && has_element(elems@, #[trigger] values@[j]),
{
    let mut j: usize = 0;
    while j < values.len()
        invariant
            j <= values@.len(),
            forall|k: int|
                0 <= k < j ==> has_element(elems@, #[trigger] values@[k]) == all,
        decreases values@.len() - j,
    {
        let here = array_has(elems, &values[j]);
        if here != all {
            return here;
        }
        j = j + 1;
    }
    all
}

/// Whether a primitive meets the comparison.
fn primitive_check(p: &Primitive, op: ComparisonOperator, value: &MemberValue) -> (r: bool)
    ensures
        r == primitive_meets(*p, op, *value),
{
    match (op, value) {
        (ComparisonOperator::Eq, MemberValue::Primitive(v)) => *p == *v,
        (ComparisonOperator::Neq, MemberValue::Primitive(v)) => *p != *v,
        (ComparisonOperator::Gt, MemberValue::Primitive(v)) => v.less(p),
        (ComparisonOperator::Gte, MemberValue::Primitive(v)) => !p.less(v),
        (ComparisonOperator::Lt, MemberValue::Primitive(v)) => p.less(v),
        (ComparisonOperator::Lte, MemberValue::Primitive(v)) => !v.less(p),
        (ComparisonOperator::In, MemberValue::List(l)) => list_has_primitive(l, p),
        (ComparisonOperator::NotIn, MemberValue::List(l)) => !list_has_primitive(l, p),
        _ => false,
    }
}

/// Whether a text meets the comparison.
fn text_check(s: &str, op: ComparisonOperator, value: &MemberValue) -> (r: bool)
    ensures
        r == text_meets(s@, op, *value),
{
    match (op, value) {
        (ComparisonOperator::Eq, MemberValue::String(v)) => str_eq(s, v),
        (ComparisonOperator::Neq, MemberValue::String(v)) => !str_eq(s, v),
        (ComparisonOperator::Gt, MemberValue::String(v)) => less(v, s),
        (ComparisonOperator::Gte, MemberValue::String(v)) => !less(s, v),
        (ComparisonOperator::Lt, MemberValue::String(v)) => less(s, v),
        (ComparisonOperator::Lte, MemberValue::String(v)) => !less(v, s),
        (ComparisonOperator::In, MemberValue::List(l)) => list_has_text(l, s),
        (ComparisonOperator::NotIn, MemberValue::List(l)) => !list_has_text(l, s),
        _ => false,
    }
}

/// Whether an enum meets the comparison.
fn enum_check(e: &Enum, op: ComparisonOperator, value: &MemberValue) -> (r: bool)
    ensures
        r == enum_meets(*e, op, *value),
{
    match e.option() {
        Some(o) => match op {
            ComparisonOperator::Eq
            | ComparisonOperator::Neq
            | ComparisonOperator::In
            | ComparisonOperator::NotIn => text_check(&o.name, op, value),
            _ => false,
        },
        None => false,
    }
}

/// Whether an array meets the comparison.
fn array_check(elems: &Vec<Ty>, op: ComparisonOperator, value: &MemberValue) -> (r: bool)
    ensures
        r == array_meets(elems@, op, *value),
{
    match (op, value) {
        (ComparisonOperator::Contains, MemberValue::List(_)) => false,
        (ComparisonOperator::Contains, _) => array_has(elems, value),
        (ComparisonOperator::ContainsAll, MemberValue::List(l)) => array_has_list(elems, l, true),
        (ComparisonOperator::ContainsAny, MemberValue::List(l)) => array_has_list(elems, l, false),
        (ComparisonOperator::ArrayLengthEq, MemberValue::Primitive(p)) => match p.as_u32() {
            Some(n) => elems.len() as u64 == n as u64,
            None => false,
        },
        (ComparisonOperator::ArrayLengthGt, MemberValue::Primitive(p)) => match p.as_u32() {
            Some(n) => elems.len() as u64 > n as u64,
            None => false,
        },
        (ComparisonOperator::ArrayLengthLt, MemberValue::Primitive(p)) => match p.as_u32() {
            Some(n) => (elems.len() as u64) < n as u64,
            None => false,
        },
        _ => false,
    }
}

/// The path and the index that a member text writes.
fn split_member(member: &str) -> (r: (String, Option<usize>))
    requires
        brackets_in_order(member@),
    ensures
        (r.0@, index_view(r.1)) == member_path(member@),
{
    let cs = chars_of(member);
    match (find_char(&cs, '['), find_char(&cs, ']')) {
        (Some(a), Some(b)) => {
            let inner = string_of(&cs, a + 1, b);
            match parse_usize(&inner) {
                Some(index) => {
                    let path = string_of(&cs, 0, a);
                    proof {
                        assert(path@ =~= member@.take(a as int));
                    }
                    (path, Some(index))
                },
                None => (member.to_owned(), None),
            }
        },
        _ => (member.to_owned(), None),
    }
}

/// Whether the updated model meets the condition on one of its members.
fn member_check(updated: &Option<Ty>, clause: &MemberClause) -> (r: bool)
    requires
        updated is Some && ty_name(updated->0) == clause.model@ ==> brackets_in_order(
            clause.member@,
        ),
    ensures
        r == member_meets(*updated, *clause),
{
    let ty = match updated {
        Some(ty) => ty,
        None => {
            return false;
        },
    };
    if !str_eq(&ty.name(), &clause.model) {
        return false;
    }
    let (path, index) = split_member(&clause.member);
    let parts = split_on(&path, '.');
    match resolve_path(ty, &parts, index) {
        Some(found) => match found {
            Ty::Primitive(p) => primitive_check(p, clause.operator, &clause.value),
            Ty::ByteArray(s) => text_check(s, clause.operator, &clause.value),
            Ty::Enum(e) => enum_check(e, clause.operator, &clause.value),
            Ty::Array(tys) => array_check(tys, clause.operator, &clause.value),
            Ty::FixedSizeArray(tys, _) => array_check(tys, clause.operator, &clause.value),
            Ty::Struct(_) => false,
            Ty::Tuple(_) => false,
        },
        None => false,
    }
}

/// Whether an element stands in the list.
fn felts_contain(list: &Vec<Felt>, id: Felt) -> (r: bool)
    ensures
        r == list@.contains(id),
{
    let mut i: usize = 0;
    while i < list.len()
        invariant
            i <= list@.len(),
            forall|k: int| 0 <= k < i ==> list@[k] != id,
        decreases list@.len() - i,
    {
        if list[i] == id {
            return true;
        }
        i = i + 1;
    }
    false
}

/// Whether an entity, with the model that was updated on it, meets the clause of a subscriber.
pub fn match_entity(
    id: Felt,
    keys: &[Felt],
    updated_model: &Option<Ty>,
    clause: &Clause,
) -> (r: bool)
    requires
        clause_readable(id, keys@, *updated_model, *clause),
    ensures
        r == entity_matches(id, keys@, *updated_model, *clause),
    decreases clause,
{
    match clause {
        Clause::HashedKeys(hashed) => hashed.len() == 0 || felts_contain(hashed, id),
        Clause::Keys(k) => any_covers(&k.models, updated_model) && follows(keys, k),
        Clause::Member(m) => member_check(updated_model, m),
        Clause::Composite(c) => {
            let all = c.operator == LogicalOperator::And;
            let mut i: usize = 0;
            while i < c.clauses.len()
                invariant
                    i <= c.clauses@.len(),
                    clause is Composite,
                    clause->Composite_0 == *c,
                    all == (c.operator == LogicalOperator::And),
                    clause_readable(id, keys@, *updated_model, *clause),
                    forall|j: int|
                        0 <= j < i ==> entity_matches(
                            id,
                            keys@,
                            *updated_model,
                            #[trigger] c.clauses@[j],
                        ) == all,
                decreases c.clauses@.len() - i,
            {
                proof {
                    assert(decreases_to!(*clause => clause->Composite_0));
                    assert(decreases_to!(c.clauses => c.clauses[i as int]));
                    assert(clause_readable(id, keys@, *updated_model, c.clauses[i as int]));
                }
                let here = match_entity(id, keys, updated_model, &c.clauses[i]);
                if here != all {
                    proof {
                        assert(entity_matches(id, keys@, *updated_model, c.clauses[i as int])
                            == here);
                    }
                    return here;
                }
                i = i + 1;
            }
            proof {
                assert forall|j: int| 0 <= j < c.clauses@.len() implies entity_matches(
                    id,
                    keys@,
                    *updated_model,
                    #[trigger] c.clauses[j],
                ) == all by {
                    assert(c.clauses@[j] == c.clauses[j]);
                }
            }
            all
        },
    }
}

// ---------------------------------------------------------------------------
// Laws
// ---------------------------------------------------------------------------

/// A condition on a member is never met where there is no updated model, or where it is of another
/// model.
pub proof fn members_need_their_model(
    id: Felt,
    keys: Seq<Felt>,
    updated: Option<Ty>,
    clause: MemberClause,
)
    requires
        updated is None || ty_name(updated->0) != clause.model@,
    ensures
        !entity_matches(id, keys, updated, Clause::Member(clause)),
{
}

/// Comparisons of a primitive with a primitive come in pairs of which exactly one is met, and so do
/// those with a list.
pub proof fn primitive_comparisons_complement(p: Primitive, v: Primitive, l: Vec<MemberValue>)
    ensures
        ({
            let one = MemberValue::Primitive(v);
            let list = MemberValue::List(l);
            &&& primitive_meets(p, ComparisonOperator::Eq, one) != primitive_meets(
                p,
                ComparisonOperator::Neq,
                one,
            )
            &&& primitive_meets(p, ComparisonOperator::Gt, one) != primitive_meets(
                p,
                ComparisonOperator::Lte,
                one,
            )
            &&& primitive_meets(p, ComparisonOperator::Lt, one) != primitive_meets(
                p,
                ComparisonOperator::Gte,
                one,
            )
            &&& primitive_meets(p, ComparisonOperator::In, list) != primitive_meets(
                p,
                ComparisonOperator::NotIn,
                list,
            )
        }),
{
}

/// Comparisons of a text with a text come in pairs of which exactly one is met, and so do those
/// with a list.
pub proof fn text_comparisons_complement(s: Seq<char>, v: String, l: Vec<MemberValue>)
    ensures
        ({
            let one = MemberValue::String(v);
            let list = MemberValue::List(l);
            &&& text_meets(s, ComparisonOperator::Eq, one) != text_meets(
                s,
                ComparisonOperator::Neq,
                one,
            )
            &&& text_meets(s, ComparisonOperator::Gt, one) != text_meets(
                s,
                ComparisonOperator::Lte,
                one,
            )
            &&& text_meets(s, ComparisonOperator::Lt, one) != text_meets(
                s,
                ComparisonOperator::Gte,
                one,
            )
            &&& text_meets(s, ComparisonOperator::In, list) != text_meets(
                s,
                ComparisonOperator::NotIn,
                list,
            )
        }),
{
}

/// An array that contains all of a list that is not empty contains any of it.
pub proof fn all_contains_any(elems: Seq<Ty>, value: MemberValue)
    requires
        value matches MemberValue::List(l) && l@.len() > 0,
        array_meets(elems, ComparisonOperator::ContainsAll, value),
    ensures
        array_meets(elems, ComparisonOperator::ContainsAny, value),
{
    let l = value->List_0;
    assert(has_element(elems, l@[0]));
}

/// A member of an array with an index in brackets is met exactly where the array has that element
/// and the element meets the comparison.
pub proof fn indexed_members_compare_elements(
    updated: Struct,
    clause: MemberClause,
    field: Seq<char>,
    at: int,
    index: nat,
)
    requires
        updated.name@ == clause.model@,
        member_path(clause.member@) == (field, Some(index)),
        !field.contains('.'),
        member_at(updated.children@, field) == Some(at),
        0 <= at < updated.children@.len(),
        updated.children@[at].ty is Array,
    ensures
        ({
            let elems = updated.children@[at].ty->Array_0@;
            member_meets(Some(Ty::Struct(updated)), clause) <==> index < elems.len() && ty_meets(
                elems[index as int],
                clause.operator,
                clause.value,
            )
        }),
{
    split_single(field, '.');
    let parts = split(field, '.');
    let whole = Ty::Struct(updated);
    let array = updated.children@[at].ty;
    assert(step(whole, parts[0], Some(index)) == Some(array));
    assert(parts.skip(1) =~= Seq::<Seq<char>>::empty());
    assert(resolve(array, parts.skip(1), Some(index), false) == indexed(array, Some(index)));
    assert(resolve(whole, parts, Some(index), false) == indexed(array, Some(index)));
}

/// A composite clause of no clauses is met by every entity where all must be met, and by none where
/// any must be; one of a single clause is met where that clause is.
pub proof fn small_composites(id: Felt, keys: Seq<Felt>, updated: Option<Ty>, c: CompositeClause)
    ensures
        c.clauses@.len() == 0 ==> entity_matches(id, keys, updated, Clause::Composite(c)) == (
        c.operator == LogicalOperator::And),
        c.clauses@.len() == 1 ==> entity_matches(id, keys, updated, Clause::Composite(c))
            == entity_matches(id, keys, updated, c.clauses@[0]),
{
    if c.clauses@.len() == 1 {
        let only = c.clauses[0];
        assert(c.clauses@[0] == only);
    }
}

} // verus!

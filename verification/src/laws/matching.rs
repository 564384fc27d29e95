//! Which updated entities meet which clauses.
use vstd::prelude::*;
use vstd::string::*;
use crate::digits::{digits_of, digits_write_value, is_digit, parse_of_digits, zero_padded};
use crate::felt::Felt;
use crate::schema::{
    payload, primitive_less, rank, ty_name, Enum, EnumOption, Member, Primitive, Struct, Ty,
};
use crate::subscriptions::matching::{
    array_meets, entity_matches, indexed, member_at, member_path, model_covers, option_at,
    primitive_meets, resolve, step, ty_meets, Clause, ComparisonOperator, CompositeClause,
    KeysClause, LogicalOperator, MemberClause, MemberValue, PatternMatching,
};
use crate::text::{
    find_from_first, find_is_first, split, split_append, split_once, split_single, text_less,
};

verus! {

// ---------------------------------------------------------------------------
// Members
// ---------------------------------------------------------------------------

/// Whether the clause is about the member at a place of the struct: the first of its name, and one
/// that is named without dots and brackets.
pub open spec fn is_about(updated: Struct, clause: MemberClause, at: int) -> bool {
    &&& clause.model@ == updated.name@
    &&& !clause.member@.contains('.')
    &&& !clause.member@.contains('[')
    &&& 0 <= at < updated.children@.len()
    &&& updated.children@[at].name@ == clause.member@
    &&& forall|j: int| 0 <= j < at ==> (#[trigger] updated.children@[j]).name@ != clause.member@
}

/// Whether the entity whose updated model is the struct meets the clause.
pub open spec fn meets(id: Felt, keys: Seq<Felt>, updated: Struct, clause: MemberClause) -> bool {
    entity_matches(id, keys, Some(Ty::Struct(updated)), Clause::Member(clause))
}

/// The first member of a name is where it is looked for.
proof fn first_member(c: Seq<Member>, at: int, name: Seq<char>)
    requires
        0 <= at < c.len(),
        c[at].name@ == name,
        forall|j: int| 0 <= j < at ==> (#[trigger] c[j]).name@ != name,
    ensures
        member_at(c, name) == Some(at),
    decreases c.len(),
{
    let d = c.drop_last();
    if at < d.len() {
        assert forall|j: int| 0 <= j < at implies (#[trigger] d[j]).name@ != name by {
            assert(c[j].name@ != name);
        }
        assert(d[at] == c[at]);
        first_member(d, at, name);
    } else {
        no_member(d, name, c);
    }
}

/// A name that no member has is not found.
proof fn no_member(d: Seq<Member>, name: Seq<char>, c: Seq<Member>)
    requires
        d.len() <= c.len(),
        forall|j: int| 0 <= j < d.len() ==> (#[trigger] c[j]).name@ != name,
        forall|j: int| 0 <= j < d.len() ==> #[trigger] d[j] == c[j],
    ensures
        member_at(d, name) is None,
    decreases d.len(),
{
    if d.len() > 0 {
        let e = d.drop_last();
        assert forall|j: int| 0 <= j < e.len() implies #[trigger] e[j] == c[j] by {
            assert(d[j] == c[j]);
        }
        no_member(e, name, c);
        assert(d[d.len() - 1] == c[d.len() - 1]);
    }
}

/// A clause about a member compares the value of that member.
pub proof fn members_are_compared(
    id: Felt,
    keys: Seq<Felt>,
    updated: Struct,
    clause: MemberClause,
    at: int,
)
    requires
        is_about(updated, clause, at),
    ensures
        meets(id, keys, updated, clause) == ty_meets(
            updated.children@[at].ty,
            clause.operator,
            clause.value,
        ),
{
    let m = clause.member@;
    find_is_first(m, '[');
    split_single(m, '.');
    first_member(updated.children@, at, m);
    let ty = updated.children@[at].ty;
    let whole = Ty::Struct(updated);
    let parts = split(m, '.');
    assert(parts[0] == m);
    assert(parts.skip(1) =~= Seq::<Seq<char>>::empty());
    assert(step(whole, parts[0], None) == Some(ty));
    assert(resolve(ty, parts.skip(1), None, false) == indexed(ty, None));
    assert(resolve(whole, parts, None, false) == Some(ty));
}

/// Whether the primitives are numbers of one type, with those values.
pub open spec fn are_numbers(p: Primitive, v: Primitive, a: int, b: int) -> bool {
    match (p, v) {
        (Primitive::I8(Some(x)), Primitive::I8(Some(y))) => a == x && b == y,
        (Primitive::I16(Some(x)), Primitive::I16(Some(y))) => a == x && b == y,
        (Primitive::I32(Some(x)), Primitive::I32(Some(y))) => a == x && b == y,
        (Primitive::I64(Some(x)), Primitive::I64(Some(y))) => a == x && b == y,
        (Primitive::I128(Some(x)), Primitive::I128(Some(y))) => a == x && b == y,
        (Primitive::U8(Some(x)), Primitive::U8(Some(y))) => a == x && b == y,
        (Primitive::U16(Some(x)), Primitive::U16(Some(y))) => a == x && b == y,
        (Primitive::U32(Some(x)), Primitive::U32(Some(y))) => a == x && b == y,
        (Primitive::U64(Some(x)), Primitive::U64(Some(y))) => a == x && b == y,
        (Primitive::U128(Some(x)), Primitive::U128(Some(y))) => a == x && b == y,
        (Primitive::U256(Some(x)), Primitive::U256(Some(y))) => a == x.hi
            * 0x1_0000_0000_0000_0000_0000_0000_0000_0000 + x.lo && b == y.hi
            * 0x1_0000_0000_0000_0000_0000_0000_0000_0000 + y.lo,
        (Primitive::Bool(Some(x)), Primitive::Bool(Some(y))) => (a == 0 || a == 1) && (b == 0 || b
            == 1) && x == (a == 1) && y == (b == 1),
        (Primitive::Felt252(Some(x)), Primitive::Felt252(Some(y))) => are_elements(x, y, a, b),
        (Primitive::ClassHash(Some(x)), Primitive::ClassHash(Some(y))) => are_elements(x, y, a, b),
        (Primitive::ContractAddress(Some(x)), Primitive::ContractAddress(Some(y))) => are_elements(
            x,
            y,
            a,
            b,
        ),
        (Primitive::EthAddress(Some(x)), Primitive::EthAddress(Some(y))) => are_elements(x, y, a, b),
        _ => false,
    }
}

/// Whether the elements have those values.
pub open spec fn are_elements(x: Felt, y: Felt, a: int, b: int) -> bool {
    a == x.hi * 0x1_0000_0000_0000_0000_0000_0000_0000_0000 + x.lo && b == y.hi
        * 0x1_0000_0000_0000_0000_0000_0000_0000_0000 + y.lo
}

/// Numbers of one type are equal where their values are, and ordered as those.
proof fn numbers_are_ordered(p: Primitive, v: Primitive, a: int, b: int)
    requires
        are_numbers(p, v, a, b),
    ensures
        p == v <==> a == b,
        primitive_less(p, v) <==> a < b,
        primitive_less(v, p) <==> b < a,
{
    assert(rank(p) == rank(v));
    assert(payload(p) == Some(a));
    assert(payload(v) == Some(b));
    crate::schema::primitive_order_is_total(p, v);
    assert(primitive_less(p, v) <==> a < b);
    assert(primitive_less(v, p) <==> b < a);
}

/// A member that is a number is compared with a number of its type as numbers are: with `Gt` it is
/// met where the member is the greater, with `Lt` where it is the less, and so on.
pub proof fn numbers_compare_as_numbers(
    id: Felt,
    keys: Seq<Felt>,
    updated: Struct,
    clause: MemberClause,
    at: int,
    p: Primitive,
    v: Primitive,
    a: int,
    b: int,
)
    requires
        is_about(updated, clause, at),
        updated.children@[at].ty == Ty::Primitive(p),
        clause.value == MemberValue::Primitive(v),
        are_numbers(p, v, a, b),
    ensures
        clause.operator == ComparisonOperator::Eq ==> (meets(id, keys, updated, clause) <==> a == b),
        clause.operator == ComparisonOperator::Neq ==> (meets(id, keys, updated, clause) <==> a != b),
        clause.operator == ComparisonOperator::Gt ==> (meets(id, keys, updated, clause) <==> a > b),
        clause.operator == ComparisonOperator::Gte ==> (meets(id, keys, updated, clause) <==> a >= b),
        clause.operator == ComparisonOperator::Lt ==> (meets(id, keys, updated, clause) <==> a < b),
        clause.operator == ComparisonOperator::Lte ==> (meets(id, keys, updated, clause) <==> a <= b),
{
    members_are_compared(id, keys, updated, clause, at);
    numbers_are_ordered(p, v, a, b);
    assert(ty_meets(Ty::Primitive(p), clause.operator, clause.value) == primitive_meets(
        p,
        clause.operator,
        clause.value,
    ));
}

/// Whether the first text stands before the second: at the first place where they differ its
/// character is the less, or it ends there.
pub open spec fn stands_before(a: Seq<char>, b: Seq<char>) -> bool {
    exists|k: int|
        0 <= k <= a.len() && k < b.len() && #[trigger] a.take(k) == b.take(k) && (k == a.len() || a[k]
            < b[k])
}

/// The order of texts is by the first place where they differ.
pub proof fn texts_are_ordered(a: Seq<char>, b: Seq<char>)
    ensures
        text_less(a, b) <==> stands_before(a, b),
    decreases a.len(),
{
    if b.len() > 0 && a.len() > 0 {
        let (x, y) = (a.skip(1), b.skip(1));
        if a[0] == b[0] {
            texts_are_ordered(x, y);
            if stands_before(x, y) {
                let k = choose|k: int|
                    0 <= k <= x.len() && k < y.len() && #[trigger] x.take(k) == y.take(k) && (k
                        == x.len() || x[k] < y[k]);
                assert(a.take(k + 1) =~= seq![a[0]] + x.take(k));
                assert(b.take(k + 1) =~= seq![b[0]] + y.take(k));
                assert(a.take(k + 1) == b.take(k + 1));
                assert(stands_before(a, b));
            }
            if stands_before(a, b) {
                let k = choose|k: int|
                    0 <= k <= a.len() && k < b.len() && #[trigger] a.take(k) == b.take(k) && (k
                        == a.len() || a[k] < b[k]);
                if k > 0 {
                    assert(x.take(k - 1) =~= a.take(k).skip(1));
                    assert(y.take(k - 1) =~= b.take(k).skip(1));
                    assert(x.take(k - 1) == y.take(k - 1));
                    assert(stands_before(x, y));
                }
            }
        } else {
            if a[0] < b[0] {
                assert(a.take(0) =~= b.take(0));
                assert(stands_before(a, b));
            }
            if stands_before(a, b) {
                let k = choose|k: int|
                    0 <= k <= a.len() && k < b.len() && #[trigger] a.take(k) == b.take(k) && (k
                        == a.len() || a[k] < b[k]);
                if k > 0 {
                    assert(a.take(k)[0] == b.take(k)[0]);
                }
            }
        }
    } else if b.len() > 0 {
        assert(a.take(0) =~= b.take(0));
        assert(stands_before(a, b));
    }
}

/// A member that is a text is compared with a text as texts are ordered.
pub proof fn texts_compare_as_texts(
    id: Felt,
    keys: Seq<Felt>,
    updated: Struct,
    clause: MemberClause,
    at: int,
    s: String,
    t: String,
)
    requires
        is_about(updated, clause, at),
        updated.children@[at].ty == Ty::ByteArray(s),
        clause.value == MemberValue::String(t),
    ensures
        clause.operator == ComparisonOperator::Eq ==> (meets(id, keys, updated, clause) <==> s@
            == t@),
        clause.operator == ComparisonOperator::Neq ==> (meets(id, keys, updated, clause) <==> s@
            != t@),
        clause.operator == ComparisonOperator::Gt ==> (meets(id, keys, updated, clause)
            <==> stands_before(t@, s@)),
        clause.operator == ComparisonOperator::Gte ==> (meets(id, keys, updated, clause)
            <==> !stands_before(s@, t@)),
        clause.operator == ComparisonOperator::Lt ==> (meets(id, keys, updated, clause)
            <==> stands_before(s@, t@)),
        clause.operator == ComparisonOperator::Lte ==> (meets(id, keys, updated, clause)
            <==> !stands_before(t@, s@)),
{
    members_are_compared(id, keys, updated, clause, at);
    texts_are_ordered(s@, t@);
    texts_are_ordered(t@, s@);
}

/// A member is in a list where the list holds its value, and not in it where it does not.
pub proof fn lists_hold_members(
    id: Felt,
    keys: Seq<Felt>,
    updated: Struct,
    clause: MemberClause,
    at: int,
    list: Vec<MemberValue>,
)
    requires
        is_about(updated, clause, at),
        clause.value == MemberValue::List(list),
    ensures
        ({
            let held = match updated.children@[at].ty {
                Ty::Primitive(p) => exists|i: int|
                    0 <= i < list@.len() && #[trigger] list@[i] == MemberValue::Primitive(p),
                Ty::ByteArray(s) => exists|i: int|
                    0 <= i < list@.len() && (#[trigger] list@[i] matches MemberValue::String(t)
                        && t@ == s@),
                _ => false,
            };
            let compared = updated.children@[at].ty is Primitive || updated.children@[at].ty is ByteArray;
            &&& clause.operator == ComparisonOperator::In && compared ==> (meets(
                id,
                keys,
                updated,
                clause,
            ) <==> held)
            &&& clause.operator == ComparisonOperator::NotIn && compared ==> (meets(
                id,
                keys,
                updated,
                clause,
            ) <==> !held)
        }),
{
    members_are_compared(id, keys, updated, clause, at);
}

/// A member that is an enum is compared by the name of its selected variant, and never where none is
/// selected.
pub proof fn enums_compare_by_name(
    id: Felt,
    keys: Seq<Felt>,
    updated: Struct,
    clause: MemberClause,
    at: int,
    e: Enum,
    t: String,
)
    requires
        is_about(updated, clause, at),
        updated.children@[at].ty == Ty::Enum(e),
        clause.value == MemberValue::String(t),
    ensures
        ({
            let named = match e.option {
                Some(i) => if i < e.options@.len() {
                    Some(e.options@[i as int].name@)
                } else {
                    None
                },
                None => None,
            };
            &&& clause.operator == ComparisonOperator::Eq ==> (meets(id, keys, updated, clause)
                <==> named == Some(t@))
            &&& clause.operator == ComparisonOperator::Neq ==> (meets(id, keys, updated, clause)
                <==> named is Some && named != Some(t@))
        }),
{
    members_are_compared(id, keys, updated, clause, at);
}

/// A member that is an array of primitives contains a primitive where one of its elements is it, and
/// is compared in length by its number of elements.
pub proof fn arrays_compare_by_elements(
    id: Felt,
    keys: Seq<Felt>,
    updated: Struct,
    clause: MemberClause,
    at: int,
    elems: Vec<Ty>,
    v: Primitive,
)
    requires
        is_about(updated, clause, at),
        updated.children@[at].ty == Ty::Array(elems),
        clause.value == MemberValue::Primitive(v),
    ensures
        clause.operator == ComparisonOperator::Contains ==> (meets(id, keys, updated, clause)
            <==> exists|i: int| 0 <= i < elems@.len() && #[trigger] elems@[i] == Ty::Primitive(v)),
        v matches Primitive::U32(Some(n)) ==> clause.operator == ComparisonOperator::ArrayLengthEq
            ==> (meets(id, keys, updated, clause) <==> elems@.len() == n),
        v matches Primitive::U32(Some(n)) ==> clause.operator == ComparisonOperator::ArrayLengthGt
            ==> (meets(id, keys, updated, clause) <==> elems@.len() > n),
        v matches Primitive::U32(Some(n)) ==> clause.operator == ComparisonOperator::ArrayLengthLt
            ==> (meets(id, keys, updated, clause) <==> elems@.len() < n),
{
    members_are_compared(id, keys, updated, clause, at);
    if clause.operator == ComparisonOperator::Contains {
        if exists|i: int| 0 <= i < elems@.len() && #[trigger] elems@[i] == Ty::Primitive(v) {
            let i = choose|i: int| 0 <= i < elems@.len() && #[trigger] elems@[i] == Ty::Primitive(v);
            assert(crate::subscriptions::matching::element_is(elems@[i], clause.value));
        }
    }
}

/// Containing all of a list is containing each of its values, and containing any is containing one.
pub proof fn lists_are_contained_by_value(elems: Seq<Ty>, list: Vec<MemberValue>)
    requires
        forall|j: int| 0 <= j < list@.len() ==> !((#[trigger] list@[j]) is List),
    ensures
        array_meets(elems, ComparisonOperator::ContainsAll, MemberValue::List(list)) <==> forall|j: int|
            0 <= j < list@.len() ==> array_meets(
                elems,
                ComparisonOperator::Contains,
                #[trigger] list@[j],
            ),
        array_meets(elems, ComparisonOperator::ContainsAny, MemberValue::List(list)) <==> exists|j: int|
            0 <= j < list@.len() && array_meets(
                elems,
                ComparisonOperator::Contains,
                #[trigger] list@[j],
            ),
{
    if array_meets(elems, ComparisonOperator::ContainsAny, MemberValue::List(list)) {
        let j = choose|j: int|
            0 <= j < list@.len() && crate::subscriptions::matching::has_element(
                elems,
                #[trigger] list@[j],
            );
        assert(array_meets(elems, ComparisonOperator::Contains, list@[j]));
    }
    if forall|j: int|
        0 <= j < list@.len() ==> array_meets(elems, ComparisonOperator::Contains, #[trigger] list@[j]) {
        assert forall|j: int| 0 <= j < list@.len() implies crate::subscriptions::matching::has_element(
            elems,
            #[trigger] list@[j],
        ) by {
            assert(array_meets(elems, ComparisonOperator::Contains, list@[j]));
        }
    }
    if array_meets(elems, ComparisonOperator::ContainsAll, MemberValue::List(list)) {
        assert forall|j: int| 0 <= j < list@.len() implies array_meets(
            elems,
            ComparisonOperator::Contains,
            #[trigger] list@[j],
        ) by {
            assert(crate::subscriptions::matching::has_element(elems, list@[j]));
        }
    }
}

/// A dot leads into a member: the clause on `outer.inner` is met where the clause on `inner` is met
/// by the struct that the member `outer` holds.
pub proof fn dots_lead_into_members(
    id: Felt,
    keys: Seq<Felt>,
    updated: Struct,
    inner: Struct,
    clause: MemberClause,
    inner_clause: MemberClause,
    outer: Seq<char>,
    at: int,
    inner_at: int,
)
    requires
        clause.model@ == updated.name@,
        !outer.contains('.'),
        !outer.contains('['),
        clause.member@ == outer + seq!['.'] + inner_clause.member@,
        clause.operator == inner_clause.operator,
        clause.value == inner_clause.value,
        0 <= at < updated.children@.len(),
        updated.children@[at].name@ == outer,
        forall|j: int| 0 <= j < at ==> (#[trigger] updated.children@[j]).name@ != outer,
        updated.children@[at].ty == Ty::Struct(inner),
        is_about(inner, inner_clause, inner_at),
    ensures
        meets(id, keys, updated, clause) == meets(id, keys, inner, inner_clause),
{
    let m = clause.member@;
    let n = inner_clause.member@;
    assert forall|i: int| 0 <= i < m.len() implies m[i] != '[' by {
        if i < outer.len() {
            assert(outer[i] == m[i]);
        } else if i > outer.len() {
            assert(n[i - outer.len() - 1] == m[i]);
        }
    }
    find_is_first(m, '[');
    split_single(outer, '.');
    split_append(outer, n, '.');
    let parts = split(m, '.');
    assert(parts =~= seq![outer, n]);
    first_member(updated.children@, at, outer);
    first_member(inner.children@, inner_at, n);
    members_are_compared(id, keys, inner, inner_clause, inner_at);
    let ty = inner.children@[inner_at].ty;
    let (whole, half) = (Ty::Struct(updated), Ty::Struct(inner));
    assert(parts.skip(1)[0] == n);
    assert(parts.skip(1).skip(1) =~= Seq::<Seq<char>>::empty());
    assert(step(whole, parts[0], None) == Some(half));
    assert(step(half, parts.skip(1)[0], None) == Some(ty));
    assert(resolve(ty, parts.skip(1).skip(1), None, false) == indexed(ty, None));
    assert(resolve(half, parts.skip(1), None, false) == Some(ty));
    assert(resolve(whole, parts, None, false) == Some(ty));
}

// ---------------------------------------------------------------------------
// Keys and composites
// ---------------------------------------------------------------------------

/// A clause of hashed keys is met by the entities that it lists, and by all where it lists none.
pub proof fn hashed_keys_list_entities(id: Felt, keys: Seq<Felt>, updated: Option<Ty>, list: Vec<Felt>)
    ensures
        entity_matches(id, keys, updated, Clause::HashedKeys(list)) <==> list@.len() == 0 || exists|
            i: int,
        |
            0 <= i < list@.len() && #[trigger] list@[i] == id,
{
}

/// A pattern of keys refuses an entity with another key at a place that it asks for, and one with
/// another number of keys where the length is fixed; it takes every other entity.
pub proof fn patterns_refuse_other_keys(
    id: Felt,
    keys: Seq<Felt>,
    updated: Option<Ty>,
    clause: KeysClause,
)
    requires
        clause.models@.len() == 0,
    ensures
        ({
            let refused = (exists|i: int|
                0 <= i < keys.len() && i < clause.keys@.len() && (
                #[trigger] clause.keys@[i] matches Some(k) && k != keys[i])) || (
            clause.pattern_matching == PatternMatching::FixedLen && keys.len() != clause.keys@.len());
            entity_matches(id, keys, updated, Clause::Keys(clause)) <==> !refused
        }),
{
    if exists|i: int|
        0 <= i < keys.len() && i < clause.keys@.len() && (
        #[trigger] clause.keys@[i] matches Some(k) && k != keys[i]) {
        let i = choose|i: int|
            0 <= i < keys.len() && i < clause.keys@.len() && (
            #[trigger] clause.keys@[i] matches Some(k) && k != keys[i]);
        assert(keys[i] != clause.keys@[i]->0);
    }
}

/// A clause that asks for a model by namespace and name is met, as far as the model goes, by the
/// models of that namespace and name; a star or nothing stands for any.
pub proof fn models_are_asked_by_parts(
    asked: Seq<char>,
    name: Seq<char>,
    ns: Seq<char>,
    n: Seq<char>,
    model_ns: Seq<char>,
    model_name: Seq<char>,
)
    requires
        asked == ns + seq!['-'] + n,
        name == model_ns + seq!['-'] + model_name,
        !ns.contains('-'),
        !model_ns.contains('-'),
    ensures
        model_covers(asked, name) <==> (ns.len() == 0 || ns == seq!['*'] || ns == model_ns) && (
        n.len() == 0 || n == seq!['*'] || n == model_name),
{
    reveal_strlit("*");
    assert("*"@ =~= seq!['*']);
    dash_splits(ns, n);
    dash_splits(model_ns, model_name);
}

/// The first dash parts a tag.
proof fn dash_splits(a: Seq<char>, b: Seq<char>)
    requires
        !a.contains('-'),
    ensures
        split_once(a + seq!['-'] + b, '-') == Some((a, b)),
{
    let s = a + seq!['-'] + b;
    assert forall|j: int| 0 <= j < a.len() implies s[j] != '-' by {
        assert(a[j] == s[j]);
    }
    assert(s[a.len() as int] == '-');
    find_from_first(s, '-', a.len() as int);
    assert(s.take(a.len() as int) =~= a);
    assert(s.skip(a.len() as int + 1) =~= b);
}

/// A clause on keys that asks for models is met only by an entity whose updated model is one of
/// them, and a model that is asked for alone decides.
pub proof fn keys_ask_for_models(
    id: Felt,
    keys: Seq<Felt>,
    updated: Ty,
    clause: KeysClause,
)
    requires
        clause.keys@.len() == 0,
        clause.pattern_matching == PatternMatching::VariableLen,
        clause.models@.len() > 0,
    ensures
        entity_matches(id, keys, Some(updated), Clause::Keys(clause)) <==> exists|i: int|
            0 <= i < clause.models@.len() && model_covers(
                (#[trigger] clause.models@[i])@,
                ty_name(updated),
            ),
        !entity_matches(id, keys, None, Clause::Keys(clause)),
{
}

/// All of several clauses are met where each is met; any of them where one is.
pub proof fn composites_combine(id: Felt, keys: Seq<Felt>, updated: Option<Ty>, c: CompositeClause)
    ensures
        c.operator == LogicalOperator::And && entity_matches(id, keys, updated, Clause::Composite(c))
            ==> forall|i: int|
            0 <= i < c.clauses@.len() ==> entity_matches(id, keys, updated, #[trigger] c.clauses@[i]),
        c.operator == LogicalOperator::And && !entity_matches(id, keys, updated, Clause::Composite(c))
            ==> exists|i: int|
            0 <= i < c.clauses@.len() && !entity_matches(id, keys, updated, #[trigger] c.clauses@[i]),
        c.operator == LogicalOperator::Or && entity_matches(id, keys, updated, Clause::Composite(c))
            ==> exists|i: int|
            0 <= i < c.clauses@.len() && entity_matches(id, keys, updated, #[trigger] c.clauses@[i]),
        c.operator == LogicalOperator::Or && !entity_matches(id, keys, updated, Clause::Composite(c))
            ==> forall|i: int|
            0 <= i < c.clauses@.len() ==> !entity_matches(id, keys, updated, #[trigger] c.clauses@[i]),
{
    assert forall|i: int| 0 <= i < c.clauses@.len() implies #[trigger] c.clauses@[i]
        == c.clauses[i] by {}
    if c.operator == LogicalOperator::And && !entity_matches(id, keys, updated, Clause::Composite(c)) {
        let i = choose|i: int|
            0 <= i < c.clauses@.len() && !entity_matches(id, keys, updated, #[trigger] c.clauses[i]);
        assert(!entity_matches(id, keys, updated, c.clauses@[i]));
    }
    if c.operator == LogicalOperator::Or && entity_matches(id, keys, updated, Clause::Composite(c)) {
        let i = choose|i: int|
            0 <= i < c.clauses@.len() && entity_matches(id, keys, updated, #[trigger] c.clauses[i]);
        assert(entity_matches(id, keys, updated, c.clauses@[i]));
    }
}

// ---------------------------------------------------------------------------
// Paths
// ---------------------------------------------------------------------------

/// A number in brackets after the name of an array leads to the element at that place; without such
/// an element nothing is met.
pub proof fn brackets_lead_to_elements(
    id: Felt,
    keys: Seq<Felt>,
    updated: Struct,
    clause: MemberClause,
    name: Seq<char>,
    at: int,
    elems: Vec<Ty>,
    n: nat,
)
    requires
        clause.model@ == updated.name@,
        !name.contains('.'),
        !name.contains('['),
        !name.contains(']'),
        clause.member@ == name + seq!['['] + digits_of(n, 10) + seq![']'],
        n <= usize::MAX,
        0 <= at < updated.children@.len(),
        updated.children@[at].name@ == name,
        forall|j: int| 0 <= j < at ==> (#[trigger] updated.children@[j]).name@ != name,
        updated.children@[at].ty == Ty::Array(elems),
    ensures
        n < elems@.len() ==> meets(id, keys, updated, clause) == ty_meets(
            elems@[n as int],
            clause.operator,
            clause.value,
        ),
        n >= elems@.len() ==> !meets(id, keys, updated, clause),
{
    let m = clause.member@;
    let d = digits_of(n, 10);
    digits_write_value(n, 10);
    parse_of_digits(n, 10, 0);
    assert(zero_padded(d, 0) =~= d);
    let a = name.len() as int;
    let b = a + 1 + d.len();
    assert forall|j: int| 0 <= j < b implies m[j] != ']' by {
        if j < a {
            assert(name[j] == m[j]);
        } else if j > a {
            assert(d[j - a - 1] == m[j]);
            assert(is_digit(d[j - a - 1], 10));
        }
    }
    assert forall|j: int| 0 <= j < a implies m[j] != '[' by {
        assert(name[j] == m[j]);
    }
    find_from_first(m, '[', a);
    find_from_first(m, ']', b);
    assert(m.subrange(a + 1, b) =~= d);
    assert(m.take(a) =~= name);
    assert(member_path(m) == (name, Some(n)));
    split_single(name, '.');
    first_member(updated.children@, at, name);
    let whole = Ty::Struct(updated);
    let ty = updated.children@[at].ty;
    let parts = split(name, '.');
    assert(parts[0] == name);
    assert(parts.skip(1) =~= Seq::<Seq<char>>::empty());
    assert(step(whole, parts[0], Some(n)) == Some(ty));
    assert(resolve(ty, parts.skip(1), Some(n), false) == indexed(ty, Some(n)));
    assert(resolve(whole, parts, Some(n), false) == indexed(ty, Some(n)));
}

/// A number leads into a tuple, the name of its selected variant into an enum, and an index into an
/// array; nothing leads past the end of one, nor into a text or a primitive.
pub proof fn steps_lead_into_values(
    elems: Vec<Ty>,
    size: u32,
    n: nat,
    part: Seq<char>,
    index: Option<nat>,
    p: Primitive,
    s: String,
)
    ensures
        n < elems@.len() ==> step(Ty::Tuple(elems), digits_of(n, 10), index) == Some(
            elems@[n as int],
        ),
        n >= elems@.len() ==> step(Ty::Tuple(elems), digits_of(n, 10), index) is None,
        n < elems@.len() ==> step(Ty::Array(elems), part, Some(n)) == Some(elems@[n as int]),
        n >= elems@.len() ==> step(Ty::Array(elems), part, Some(n)) is None,
        step(Ty::Array(elems), part, None) is None,
        n < elems@.len() ==> step(Ty::FixedSizeArray(elems, size), part, Some(n)) == Some(
            elems@[n as int],
        ),
        n >= elems@.len() ==> step(Ty::FixedSizeArray(elems, size), part, Some(n)) is None,
        n < elems@.len() ==> indexed(Ty::FixedSizeArray(elems, size), Some(n)) == Some(
            elems@[n as int],
        ),
        n >= elems@.len() ==> indexed(Ty::FixedSizeArray(elems, size), Some(n)) is None,
        step(Ty::Primitive(p), part, index) is None,
        step(Ty::ByteArray(s), part, index) is None,
{
    digits_write_value(n, 10);
    parse_of_digits(n, 10, 0);
    assert(zero_padded(digits_of(n, 10), 0) =~= digits_of(n, 10));
}

/// An index is used once: what it leads to is not indexed again.
pub proof fn indexes_are_used_once(elems: Vec<Ty>, part: Seq<char>, n: nat)
    requires
        n < elems@.len(),
    ensures
        resolve(Ty::Array(elems), seq![part], Some(n), false) == Some(elems@[n as int]),
{
    let parts = seq![part];
    assert(parts.skip(1) =~= Seq::<Seq<char>>::empty());
    assert(resolve(elems@[n as int], parts.skip(1), Some(n), true) == Some(elems@[n as int]));
}

/// No comparison is met by a struct or a tuple, and none but those of arrays by an array; an array
/// holds no list.
pub proof fn compounds_meet_no_comparison(
    s: Struct,
    elems: Vec<Ty>,
    op: ComparisonOperator,
    value: MemberValue,
)
    ensures
        !ty_meets(Ty::Struct(s), op, value),
        !ty_meets(Ty::Tuple(elems), op, value),
        op == ComparisonOperator::Contains && value is List ==> !ty_meets(
            Ty::Array(elems),
            op,
            value,
        ),
        op == ComparisonOperator::Eq || op == ComparisonOperator::Neq || op
            == ComparisonOperator::Gt || op == ComparisonOperator::Gte || op
            == ComparisonOperator::Lt || op == ComparisonOperator::Lte || op
            == ComparisonOperator::In || op == ComparisonOperator::NotIn ==> !ty_meets(
            Ty::Array(elems),
            op,
            value,
        ),
{
}

/// Primitives of different types are ordered by type, in the order of the signed integers, the
/// unsigned ones, truth values, elements and addresses.
pub proof fn types_are_ordered(a: Primitive, b: Primitive)
    ensures
        a is I8 && b is I16 ==> primitive_less(a, b) && !primitive_less(b, a),
        a is I16 && b is I32 ==> primitive_less(a, b) && !primitive_less(b, a),
        a is I32 && b is I64 ==> primitive_less(a, b) && !primitive_less(b, a),
        a is I64 && b is I128 ==> primitive_less(a, b) && !primitive_less(b, a),
        a is I128 && b is U8 ==> primitive_less(a, b) && !primitive_less(b, a),
        a is U8 && b is U16 ==> primitive_less(a, b) && !primitive_less(b, a),
        a is U16 && b is U32 ==> primitive_less(a, b) && !primitive_less(b, a),
        a is U32 && b is U64 ==> primitive_less(a, b) && !primitive_less(b, a),
        a is U64 && b is U128 ==> primitive_less(a, b) && !primitive_less(b, a),
        a is U128 && b is U256 ==> primitive_less(a, b) && !primitive_less(b, a),
        a is U256 && b is Bool ==> primitive_less(a, b) && !primitive_less(b, a),
        a is Bool && b is Felt252 ==> primitive_less(a, b) && !primitive_less(b, a),
        a is Felt252 && b is ClassHash ==> primitive_less(a, b) && !primitive_less(b, a),
        a is ClassHash && b is ContractAddress ==> primitive_less(a, b) && !primitive_less(b, a),
        a is ContractAddress && b is EthAddress ==> primitive_less(a, b) && !primitive_less(b, a),
{
}

/// A primitive without a value stands before those of its type that have one.
pub proof fn absent_values_stand_first(a: Primitive, b: Primitive)
    requires
        match (a, b) {
            (Primitive::I8(None), Primitive::I8(Some(_))) => true,
            (Primitive::I16(None), Primitive::I16(Some(_))) => true,
            (Primitive::I32(None), Primitive::I32(Some(_))) => true,
            (Primitive::I64(None), Primitive::I64(Some(_))) => true,
            (Primitive::I128(None), Primitive::I128(Some(_))) => true,
            (Primitive::U8(None), Primitive::U8(Some(_))) => true,
            (Primitive::U16(None), Primitive::U16(Some(_))) => true,
            (Primitive::U32(None), Primitive::U32(Some(_))) => true,
            (Primitive::U64(None), Primitive::U64(Some(_))) => true,
            (Primitive::U128(None), Primitive::U128(Some(_))) => true,
            (Primitive::U256(None), Primitive::U256(Some(_))) => true,
            (Primitive::Bool(None), Primitive::Bool(Some(_))) => true,
            (Primitive::Felt252(None), Primitive::Felt252(Some(_))) => true,
            (Primitive::ClassHash(None), Primitive::ClassHash(Some(_))) => true,
            (Primitive::ContractAddress(None), Primitive::ContractAddress(Some(_))) => true,
            (Primitive::EthAddress(None), Primitive::EthAddress(Some(_))) => true,
            _ => false,
        },
    ensures
        primitive_less(a, b),
        !primitive_less(b, a),
{
}

/// A primitive is compared with primitives and a text with texts only; neither contains anything,
/// and neither has a length.
pub proof fn unlike_values_do_not_compare(
    p: Primitive,
    s: String,
    v: Primitive,
    t: String,
    l: Vec<MemberValue>,
    op: ComparisonOperator,
)
    ensures
        !ty_meets(Ty::Primitive(p), op, MemberValue::String(t)),
        !ty_meets(Ty::ByteArray(s), op, MemberValue::Primitive(v)),
        op != ComparisonOperator::In && op != ComparisonOperator::NotIn ==> !ty_meets(
            Ty::Primitive(p),
            op,
            MemberValue::List(l),
        ) && !ty_meets(Ty::ByteArray(s), op, MemberValue::List(l)),
        op == ComparisonOperator::In || op == ComparisonOperator::NotIn || op
            == ComparisonOperator::Contains || op == ComparisonOperator::ContainsAll || op
            == ComparisonOperator::ContainsAny || op == ComparisonOperator::ArrayLengthEq || op
            == ComparisonOperator::ArrayLengthGt || op == ComparisonOperator::ArrayLengthLt
            ==> !ty_meets(Ty::Primitive(p), op, MemberValue::Primitive(v)) && !ty_meets(
            Ty::ByteArray(s),
            op,
            MemberValue::String(t),
        ),
{
}

/// The name of its selected variant leads into an enum, and that of another variant does not.
pub proof fn selected_variants_lead_on(e: Enum, i: int, index: Option<nat>)
    requires
        0 <= i < e.options@.len(),
        e.options@.len() <= 256,
        forall|j: int| 0 <= j < i ==> (#[trigger] e.options@[j]).name@ != e.options@[i].name@,
    ensures
        e.option == Some(i as u8) ==> step(Ty::Enum(e), e.options@[i].name@, index) == Some(
            e.options@[i].ty,
        ),
        e.option != Some(i as u8) ==> step(Ty::Enum(e), e.options@[i].name@, index) is None,
{
    variant_is_first(e.options@, e.options@[i].name@, i);
}

/// A variant stands where its name is first.
proof fn variant_is_first(c: Seq<EnumOption>, name: Seq<char>, i: int)
    requires
        0 <= i <= c.len(),
        i < c.len() ==> c[i].name@ == name,
        forall|j: int| 0 <= j < i ==> (#[trigger] c[j]).name@ != name,
    ensures
        option_at(c, name) == (if i < c.len() {
            Some(i)
        } else {
            None
        }),
    decreases c.len(),
{
    if c.len() > 0 {
        let t = c.drop_last();
        assert forall|j: int| 0 <= j < t.len() && j < i implies (#[trigger] t[j]).name@ != name by {
            assert(t[j] == c[j]);
        }
        if i < c.len() - 1 {
            assert(t[i] == c[i]);
            variant_is_first(t, name, i);
        } else {
            variant_is_first(t, name, t.len() as int);
            if i == c.len() {
                assert(c[c.len() - 1].name@ != name);
            }
        }
    }
}

} // verus!

//! What the schema of a model has that an earlier one has not.
use vstd::prelude::*;
use vstd::string::*;
use crypto_bigint::U256 as OuterU256;
use dojo_types::primitive::Primitive as OuterPrimitive;
use dojo_types::schema::Enum as OuterEnum;
use dojo_types::schema::EnumOption as OuterOption;
use dojo_types::schema::Member as OuterMember;
use dojo_types::schema::Struct as OuterStruct;
use dojo_types::schema::Ty as OuterTy;
use starknet_crypto::Felt as OuterFelt;
use crate::felt::Felt;
use crate::schema::{
    list_view, members_view, options_view, Enum, EnumOption, Member, MemberView, OptionView,
    Primitive, Struct, Ty, TyView, U256,
};

verus! {

// ---------------------------------------------------------------------------
// Types of `dojo_types`
// ---------------------------------------------------------------------------

// The schemas of `dojo_types` are declared with their fields, so that what is made of them, and what
// they are made of, is proved field by field. The numbers within them are opaque.

/// `starknet_crypto::Felt`, without its fields.
#[verifier::external_type_specification]
#[verifier::external_body]
pub struct ExOuterFelt(OuterFelt);

/// `crypto_bigint::Uint`, without its fields.
#[verifier::external_type_specification]
#[verifier::external_body]
pub struct ExUint<const LIMBS: usize>(crypto_bigint::Uint<LIMBS>);

/// `dojo_types::primitive::Primitive`, with its variants.
#[verifier::external_type_specification]
pub struct ExOuterPrimitive(OuterPrimitive);

/// `dojo_types::schema::Member`, with its fields.
#[verifier::external_type_specification]
pub struct ExOuterMember(OuterMember);

/// `dojo_types::schema::Struct`, with its fields.
#[verifier::external_type_specification]
pub struct ExOuterStruct(OuterStruct);

/// `dojo_types::schema::EnumOption`, with its fields.
#[verifier::external_type_specification]
pub struct ExOuterOption(OuterOption);

/// `dojo_types::schema::Enum`, with its fields.
#[verifier::external_type_specification]
pub struct ExOuterEnum(OuterEnum);

/// `dojo_types::schema::Ty`, with its variants.
#[verifier::external_type_specification]
pub struct ExOuterTy(OuterTy);

/// The element that a `starknet_crypto::Felt` stands for.
pub uninterp spec fn felt_held(f: OuterFelt) -> Felt;

/// The number that a `crypto_bigint::U256` stands for, by its halves.
pub uninterp spec fn wide_held(v: OuterU256) -> U256;

/// `starknet_crypto::Felt::from_bytes_be` makes the element of a number below the order of
/// the field.
#[verifier::external_body]
fn outer_felt(f: Felt) -> (r: OuterFelt)
    requires
        f.wf(),
    ensures
        felt_held(r) == f,
{
    let mut b = [0u8; 32];
    b[..16].copy_from_slice(&f.hi.to_be_bytes());
    b[16..].copy_from_slice(&f.lo.to_be_bytes());
    OuterFelt::from_bytes_be(&b)
}

/// `starknet_crypto::Felt::to_bytes_be` gives the number of an element, which is below the
/// order of the field.
#[verifier::external_body]
fn inner_felt(f: OuterFelt) -> (r: Felt)
    ensures
        r == felt_held(f),
        r.wf(),
{
    let b = f.to_bytes_be();
    let mut hi = [0u8; 16];
    let mut lo = [0u8; 16];
    hi.copy_from_slice(&b[..16]);
    lo.copy_from_slice(&b[16..]);
    Felt { hi: u128::from_be_bytes(hi), lo: u128::from_be_bytes(lo) }
}

/// `crypto_bigint::U256::from_be_slice` makes a number of its 32 bytes.
#[verifier::external_body]
fn outer_wide(v: U256) -> (r: OuterU256)
    ensures
        wide_held(r) == v,
{
    let mut b = [0u8; 32];
    b[..16].copy_from_slice(&v.hi.to_be_bytes());
    b[16..].copy_from_slice(&v.lo.to_be_bytes());
    OuterU256::from_be_slice(&b)
}

/// `crypto_bigint::Encoding::to_be_bytes` gives the 32 bytes of a number.
#[verifier::external_body]
fn inner_wide(v: OuterU256) -> (r: U256)
    ensures
        r == wide_held(v),
{
    let b = crypto_bigint::Encoding::to_be_bytes(&v);
    let mut hi = [0u8; 16];
    let mut lo = [0u8; 16];
    hi.copy_from_slice(&b[..16]);
    lo.copy_from_slice(&b[16..]);
    U256 { hi: u128::from_be_bytes(hi), lo: u128::from_be_bytes(lo) }
}

/// The element, if there is one.
pub open spec fn opt_felt_held(v: Option<OuterFelt>) -> Option<Felt> {
    match v {
        Some(f) => Some(felt_held(f)),
        None => None,
    }
}

/// The primitive that one of `dojo_types` stands for.
pub open spec fn primitive_held(p: OuterPrimitive) -> Primitive {
    match p {
        OuterPrimitive::I8(v) => Primitive::I8(v),
        OuterPrimitive::I16(v) => Primitive::I16(v),
        OuterPrimitive::I32(v) => Primitive::I32(v),
        OuterPrimitive::I64(v) => Primitive::I64(v),
        OuterPrimitive::I128(v) => Primitive::I128(v),
        OuterPrimitive::U8(v) => Primitive::U8(v),
        OuterPrimitive::U16(v) => Primitive::U16(v),
        OuterPrimitive::U32(v) => Primitive::U32(v),
        OuterPrimitive::U64(v) => Primitive::U64(v),
        OuterPrimitive::U128(v) => Primitive::U128(v),
        OuterPrimitive::U256(Some(v)) => Primitive::U256(Some(wide_held(v))),
        OuterPrimitive::U256(None) => Primitive::U256(None),
        OuterPrimitive::Bool(v) => Primitive::Bool(v),
        OuterPrimitive::Felt252(v) => Primitive::Felt252(opt_felt_held(v)),
        OuterPrimitive::ClassHash(v) => Primitive::ClassHash(opt_felt_held(v)),
        OuterPrimitive::ContractAddress(v) => Primitive::ContractAddress(opt_felt_held(v)),
        OuterPrimitive::EthAddress(v) => Primitive::EthAddress(opt_felt_held(v)),
    }
}

/// Whether the value of a primitive, where it is an element, is one of the field.
pub open spec fn primitive_wf(p: Primitive) -> bool {
    match p {
        Primitive::Felt252(Some(f)) => f.wf(),
        Primitive::ClassHash(Some(f)) => f.wf(),
        Primitive::ContractAddress(Some(f)) => f.wf(),
        Primitive::EthAddress(Some(f)) => f.wf(),
        _ => true,
    }
}

/// The element, if there is one.
fn outer_opt_felt(v: Option<Felt>) -> (r: Option<OuterFelt>)
    requires
        v matches Some(f) ==> f.wf(),
    ensures
        opt_felt_held(r) == v,
{
    match v {
        Some(f) => Some(outer_felt(f)),
        None => None,
    }
}

/// The element, if there is one.
fn inner_opt_felt(v: Option<OuterFelt>) -> (r: Option<Felt>)
    ensures
        r == opt_felt_held(v),
        r matches Some(f) ==> f.wf(),
{
    match v {
        Some(f) => Some(inner_felt(f)),
        None => None,
    }
}

/// The primitive of `dojo_types` that stands for the primitive.
fn outer_primitive(p: Primitive) -> (r: OuterPrimitive)
    requires
        primitive_wf(p),
    ensures
        primitive_held(r) == p,
{
    match p {
        Primitive::I8(v) => OuterPrimitive::I8(v),
        Primitive::I16(v) => OuterPrimitive::I16(v),
        Primitive::I32(v) => OuterPrimitive::I32(v),
        Primitive::I64(v) => OuterPrimitive::I64(v),
        Primitive::I128(v) => OuterPrimitive::I128(v),
        Primitive::U8(v) => OuterPrimitive::U8(v),
        Primitive::U16(v) => OuterPrimitive::U16(v),
        Primitive::U32(v) => OuterPrimitive::U32(v),
        Primitive::U64(v) => OuterPrimitive::U64(v),
        Primitive::U128(v) => OuterPrimitive::U128(v),
        Primitive::U256(Some(v)) => OuterPrimitive::U256(Some(outer_wide(v))),
        Primitive::U256(None) => OuterPrimitive::U256(None),
        Primitive::Bool(v) => OuterPrimitive::Bool(v),
        Primitive::Felt252(v) => OuterPrimitive::Felt252(outer_opt_felt(v)),
        Primitive::ClassHash(v) => OuterPrimitive::ClassHash(outer_opt_felt(v)),
        Primitive::ContractAddress(v) => OuterPrimitive::ContractAddress(outer_opt_felt(v)),
        Primitive::EthAddress(v) => OuterPrimitive::EthAddress(outer_opt_felt(v)),
    }
}

/// The primitive that one of `dojo_types` stands for.
fn inner_primitive(p: OuterPrimitive) -> (r: Primitive)
    ensures
        r == primitive_held(p),
        primitive_wf(r),
{
    match p {
        OuterPrimitive::I8(v) => Primitive::I8(v),
        OuterPrimitive::I16(v) => Primitive::I16(v),
        OuterPrimitive::I32(v) => Primitive::I32(v),
        OuterPrimitive::I64(v) => Primitive::I64(v),
        OuterPrimitive::I128(v) => Primitive::I128(v),
        OuterPrimitive::U8(v) => Primitive::U8(v),
        OuterPrimitive::U16(v) => Primitive::U16(v),
        OuterPrimitive::U32(v) => Primitive::U32(v),
        OuterPrimitive::U64(v) => Primitive::U64(v),
        OuterPrimitive::U128(v) => Primitive::U128(v),
        OuterPrimitive::U256(Some(v)) => Primitive::U256(Some(inner_wide(v))),
        OuterPrimitive::U256(None) => Primitive::U256(None),
        OuterPrimitive::Bool(v) => Primitive::Bool(v),
        OuterPrimitive::Felt252(v) => Primitive::Felt252(inner_opt_felt(v)),
        OuterPrimitive::ClassHash(v) => Primitive::ClassHash(inner_opt_felt(v)),
        OuterPrimitive::ContractAddress(v) => Primitive::ContractAddress(inner_opt_felt(v)),
        OuterPrimitive::EthAddress(v) => Primitive::EthAddress(inner_opt_felt(v)),
    }
}

/// What the types of `dojo_types` in a list hold, one for one.
pub open spec fn list_held(v: Vec<OuterTy>) -> Seq<TyView>
    decreases v,
{
    Seq::new(
        v@.len(),
        |i: int|
            if 0 <= i < v@.len() {
                held(v[i])
            } else {
                arbitrary()
            },
    )
}

/// What the members hold, one for one.
pub open spec fn members_held(v: Vec<OuterMember>) -> Seq<MemberView>
    decreases v,
{
    Seq::new(
        v@.len(),
        |i: int|
            if 0 <= i < v@.len() {
                MemberView { name: v[i].name@, ty: held(v[i].ty), key: v[i].key }
            } else {
                arbitrary()
            },
    )
}

/// What the variants hold, one for one.
pub open spec fn options_held(v: Vec<OuterOption>) -> Seq<OptionView>
    decreases v,
{
    Seq::new(
        v@.len(),
        |i: int|
            if 0 <= i < v@.len() {
                OptionView { name: v[i].name@, ty: held(v[i].ty) }
            } else {
                arbitrary()
            },
    )
}

/// What a type of `dojo_types` holds.
pub open spec fn held(t: OuterTy) -> TyView
    decreases t,
{
    match t {
        OuterTy::Primitive(p) => TyView::Primitive(primitive_held(p)),
        OuterTy::Struct(s) => TyView::Struct(s.name@, members_held(s.children)),
        OuterTy::Enum(e) => TyView::Enum(e.name@, e.option, options_held(e.options)),
        OuterTy::Tuple(v) => TyView::Tuple(list_held(v)),
        OuterTy::Array(v) => TyView::Array(list_held(v)),
        OuterTy::ByteArray(s) => TyView::ByteArray(s@),
        OuterTy::FixedSizeArray(v) => TyView::FixedSizeArray(list_held(v.0), v.1),
    }
}

/// Whether every element that a type holds is one of the field.
pub open spec fn elements_wf(t: TyView) -> bool
    decreases t,
{
    match t {
        TyView::Primitive(p) => primitive_wf(p),
        TyView::Struct(_, s) => forall|i: int| 0 <= i < s.len() ==> elements_wf((#[trigger] s[i]).ty),
        TyView::Enum(_, _, s) => forall|i: int|
            0 <= i < s.len() ==> elements_wf((#[trigger] s[i]).ty),
        TyView::Tuple(s) => forall|i: int| 0 <= i < s.len() ==> elements_wf(#[trigger] s[i]),
        TyView::Array(s) => forall|i: int| 0 <= i < s.len() ==> elements_wf(#[trigger] s[i]),
        TyView::ByteArray(_) => true,
        TyView::FixedSizeArray(s, _) => forall|i: int|
            0 <= i < s.len() ==> elements_wf(#[trigger] s[i]),
    }
}

/// The types of `dojo_types` that stand for those of a list.
fn outer_list(v: &Vec<Ty>) -> (r: Vec<OuterTy>)
    requires
        forall|i: int| 0 <= i < v@.len() ==> elements_wf(#[trigger] list_view(*v)[i]),
    ensures
        list_held(r) == list_view(*v),
    decreases v, 1nat,
{
    let mut out: Vec<OuterTy> = Vec::new();
    let mut i: usize = 0;
    while i < v.len()
        invariant
            i <= v@.len(),
            forall|i: int| 0 <= i < v@.len() ==> elements_wf(#[trigger] list_view(*v)[i]),
            out@.len() == i,
            forall|k: int| 0 <= k < i ==> held(#[trigger] out[k]) == v[k].view(),
        decreases v@.len() - i,
    {
        proof {
            assert(decreases_to!(*v => v[i as int]));
            assert(elements_wf(list_view(*v)[i as int]));
        }
        let ghost before = out;
        out.push(outer_ty(&v[i]));
        proof {
            assert forall|k: int| 0 <= k < i + 1 implies held(#[trigger] out[k])
                == v[k].view() by {
                if k < i {
                    assert(out[k] == before[k]);
                }
            }
        }
        i = i + 1;
    }
    proof {
        assert(list_held(out) =~= list_view(*v));
    }
    out
}

/// The type of `dojo_types` that stands for the type.
fn outer_ty(t: &Ty) -> (r: OuterTy)
    requires
        elements_wf(t.view()),
    ensures
        held(r) == t.view(),
    decreases t, 0nat,
{
    match t {
        Ty::Primitive(p) => OuterTy::Primitive(outer_primitive(*p)),
        Ty::Struct(s) => {
            let mut children: Vec<OuterMember> = Vec::new();
            let mut i: usize = 0;
            while i < s.children.len()
                invariant
                    i <= s.children@.len(),
                    *t == Ty::Struct(*s),
                    elements_wf(t.view()),
                    children@.len() == i,
                    forall|k: int|
                        0 <= k < i ==> (#[trigger] children[k]).name@ == s.children[k].name@ && held(
                            children[k].ty,
                        ) == s.children[k].ty.view() && children[k].key == s.children[k].key,
                decreases s.children@.len() - i,
            {
                let m = &s.children[i];
                proof {
                    assert(decreases_to!(*t => t->Struct_0));
                    assert(decreases_to!(s.children => s.children[i as int]));
                    assert(elements_wf(members_view(s.children)[i as int].ty));
                }
                let ghost before = children;
                children.push(
                    OuterMember { name: m.name.clone(), ty: outer_ty(&m.ty), key: m.key },
                );
                proof {
                    assert forall|k: int| 0 <= k < i + 1 implies (#[trigger] children[k]).name@
                        == s.children[k].name@ && held(children[k].ty) == s.children[k].ty.view()
                        && children[k].key == s.children[k].key by {
                        if k < i {
                            assert(children[k] == before[k]);
                        }
                    }
                }
                i = i + 1;
            }
            proof {
                assert(members_held(children) =~= members_view(s.children));
            }
            OuterTy::Struct(OuterStruct { name: s.name.clone(), children })
        },
        Ty::Enum(e) => {
            let mut options: Vec<OuterOption> = Vec::new();
            let mut i: usize = 0;
            while i < e.options.len()
                invariant
                    i <= e.options@.len(),
                    *t == Ty::Enum(*e),
                    elements_wf(t.view()),
                    options@.len() == i,
                    forall|k: int|
                        0 <= k < i ==> (#[trigger] options[k]).name@ == e.options[k].name@ && held(
                            options[k].ty,
                        ) == e.options[k].ty.view(),
                decreases e.options@.len() - i,
            {
                let o = &e.options[i];
                proof {
                    assert(decreases_to!(*t => t->Enum_0));
                    assert(decreases_to!(e.options => e.options[i as int]));
                    assert(elements_wf(options_view(e.options)[i as int].ty));
                }
                let ghost before = options;
                options.push(OuterOption { name: o.name.clone(), ty: outer_ty(&o.ty) });
                proof {
                    assert forall|k: int| 0 <= k < i + 1 implies (#[trigger] options[k]).name@
                        == e.options[k].name@ && held(options[k].ty)
                        == e.options[k].ty.view() by {
                        if k < i {
                            assert(options[k] == before[k]);
                        }
                    }
                }
                i = i + 1;
            }
            proof {
                assert(options_held(options) =~= options_view(e.options));
            }
            OuterTy::Enum(OuterEnum { name: e.name.clone(), option: e.option, options })
        },
        Ty::Tuple(v) => {
            proof {
                let l = list_view(*v);
                assert(elements_wf(TyView::Tuple(l)));
                assert forall|i: int| 0 <= i < v@.len() implies elements_wf(
                    #[trigger] list_view(*v)[i],
                ) by {
                    assert(elements_wf(l[i]));
                }
            }
            OuterTy::Tuple(outer_list(v))
        },
        Ty::Array(v) => {
            proof {
                let l = list_view(*v);
                assert(elements_wf(TyView::Array(l)));
                assert forall|i: int| 0 <= i < v@.len() implies elements_wf(
                    #[trigger] list_view(*v)[i],
                ) by {
                    assert(elements_wf(l[i]));
                }
            }
            OuterTy::Array(outer_list(v))
        },
        Ty::ByteArray(s) => OuterTy::ByteArray(s.clone()),
        Ty::FixedSizeArray(v, n) => {
            proof {
                let l = list_view(*v);
                assert(elements_wf(TyView::FixedSizeArray(l, *n)));
                assert forall|i: int| 0 <= i < v@.len() implies elements_wf(
                    #[trigger] list_view(*v)[i],
                ) by {
                    assert(elements_wf(l[i]));
                }
            }
            OuterTy::FixedSizeArray((outer_list(v), *n))
        },
    }
}

/// The types that those of `dojo_types` in a list stand for.
fn inner_list(v: &Vec<OuterTy>) -> (r: Vec<Ty>)
    ensures
        list_view(r) == list_held(*v),
        forall|i: int| 0 <= i < r@.len() ==> elements_wf(#[trigger] list_view(r)[i]),
    decreases v, 1nat,
{
    let mut out: Vec<Ty> = Vec::new();
    let mut i: usize = 0;
    while i < v.len()
        invariant
            i <= v@.len(),
            out@.len() == i,
            forall|k: int|
                0 <= k < i ==> (#[trigger] out[k]).view() == held(v[k]) && elements_wf(
                    out[k].view(),
                ),
        decreases v@.len() - i,
    {
        proof {
            assert(decreases_to!(*v => v[i as int]));
        }
        let ghost before = out;
        out.push(inner_ty(&v[i]));
        proof {
            assert forall|k: int| 0 <= k < i + 1 implies (#[trigger] out[k]).view() == held(v[k])
                && elements_wf(out[k].view()) by {
                if k < i {
                    assert(out[k] == before[k]);
                }
            }
        }
        i = i + 1;
    }
    proof {
        assert(list_view(out) =~= list_held(*v));
        assert forall|k: int| 0 <= k < out@.len() implies elements_wf(
            #[trigger] list_view(out)[k],
        ) by {
            assert(elements_wf(out[k].view()));
        }
    }
    out
}

/// The type that one of `dojo_types` stands for.
fn inner_ty(t: &OuterTy) -> (r: Ty)
    ensures
        r.view() == held(*t),
        elements_wf(r.view()),
    decreases t, 0nat,
{
    match t {
        OuterTy::Primitive(p) => Ty::Primitive(inner_primitive(*p)),
        OuterTy::Struct(s) => {
            let mut children: Vec<Member> = Vec::new();
            let mut i: usize = 0;
            while i < s.children.len()
                invariant
                    i <= s.children@.len(),
                    *t == OuterTy::Struct(*s),
                    children@.len() == i,
                    forall|k: int|
                        0 <= k < i ==> (#[trigger] children[k]).name@ == s.children[k].name@
                            && children[k].ty.view() == held(s.children[k].ty) && elements_wf(
                            children[k].ty.view(),
                        ) && children[k].key == s.children[k].key,
                decreases s.children@.len() - i,
            {
                let m = &s.children[i];
                proof {
                    match t {
                        OuterTy::Struct(x) => assert(decreases_to!(*t => *x)),
                        _ => {},
                    }
                    assert(decreases_to!(s.children => s.children[i as int]));
                }
                let ghost before = children;
                children.push(Member { name: m.name.clone(), ty: inner_ty(&m.ty), key: m.key });
                proof {
                    assert forall|k: int| 0 <= k < i + 1 implies (#[trigger] children[k]).name@
                        == s.children[k].name@ && children[k].ty.view() == held(s.children[k].ty)
                        && elements_wf(children[k].ty.view()) && children[k].key
                        == s.children[k].key by {
                        if k < i {
                            assert(children[k] == before[k]);
                        }
                    }
                }
                i = i + 1;
            }
            proof {
                let m = members_view(children);
                assert(m =~= members_held(s.children));
                assert forall|k: int| 0 <= k < m.len() implies elements_wf((#[trigger] m[k]).ty) by {
                    assert(elements_wf(children[k].ty.view()));
                }
            }
            Ty::Struct(Struct { name: s.name.clone(), children })
        },
        OuterTy::Enum(e) => {
            let mut options: Vec<EnumOption> = Vec::new();
            let mut i: usize = 0;
            while i < e.options.len()
                invariant
                    i <= e.options@.len(),
                    *t == OuterTy::Enum(*e),
                    options@.len() == i,
                    forall|k: int|
                        0 <= k < i ==> (#[trigger] options[k]).name@ == e.options[k].name@
                            && options[k].ty.view() == held(e.options[k].ty) && elements_wf(
                            options[k].ty.view(),
                        ),
                decreases e.options@.len() - i,
            {
                let o = &e.options[i];
                proof {
                    match t {
                        OuterTy::Enum(x) => assert(decreases_to!(*t => *x)),
                        _ => {},
                    }
                    assert(decreases_to!(e.options => e.options[i as int]));
                }
                let ghost before = options;
                options.push(EnumOption { name: o.name.clone(), ty: inner_ty(&o.ty) });
                proof {
                    assert forall|k: int| 0 <= k < i + 1 implies (#[trigger] options[k]).name@
                        == e.options[k].name@ && options[k].ty.view() == held(e.options[k].ty)
                        && elements_wf(options[k].ty.view()) by {
                        if k < i {
                            assert(options[k] == before[k]);
                        }
                    }
                }
                i = i + 1;
            }
            proof {
                let m = options_view(options);
                assert(m =~= options_held(e.options));
                assert forall|k: int| 0 <= k < m.len() implies elements_wf((#[trigger] m[k]).ty) by {
                    assert(elements_wf(options[k].ty.view()));
                }
            }
            Ty::Enum(Enum { name: e.name.clone(), option: e.option, options })
        },
        OuterTy::Tuple(v) => Ty::Tuple(inner_list(v)),
        OuterTy::Array(v) => Ty::Array(inner_list(v)),
        OuterTy::ByteArray(s) => Ty::ByteArray(s.clone()),
        OuterTy::FixedSizeArray(v) => Ty::FixedSizeArray(inner_list(&v.0), v.1),
    }
}

// ---------------------------------------------------------------------------
// What one type has that another has not
// ---------------------------------------------------------------------------

/// The place of the first member of that name.
pub open spec fn member_named(s: Seq<MemberView>, name: Seq<char>) -> Option<int>
    decreases s.len(),
{
    if s.len() == 0 {
        None
    } else {
        match member_named(s.drop_last(), name) {
            Some(i) => Some(i),
            None => if s.last().name == name {
                Some(s.len() - 1)
            } else {
                None
            },
        }
    }
}

/// The place of the first variant of that name.
pub open spec fn option_named(s: Seq<OptionView>, name: Seq<char>) -> Option<int>
    decreases s.len(),
{
    if s.len() == 0 {
        None
    } else {
        match option_named(s.drop_last(), name) {
            Some(i) => Some(i),
            None => if s.last().name == name {
                Some(s.len() - 1)
            } else {
                None
            },
        }
    }
}

/// Whether two types can be held against each other: they are of one kind, and so are the members
/// and variants of one name, and the elements of tuples of one length.
pub open spec fn comparable(a: TyView, b: TyView) -> bool
    decreases a,
{
    match (a, b) {
        (TyView::Struct(_, s), TyView::Struct(_, t)) => forall|i: int|
            0 <= i < s.len() ==> match member_named(t, (#[trigger] s[i]).name) {
                Some(j) => comparable(s[i].ty, t[j].ty),
                None => true,
            },
        (TyView::Enum(_, _, s), TyView::Enum(_, _, t)) => forall|i: int|
            0 <= i < s.len() ==> match option_named(t, (#[trigger] s[i]).name) {
                Some(j) => comparable(s[i].ty, t[j].ty),
                None => true,
            },
        (TyView::Tuple(s), TyView::Tuple(t)) => s.len() == t.len() ==> forall|i: int|
            0 <= i < s.len() ==> comparable(#[trigger] s[i], t[i]),
        (TyView::Array(_), TyView::Array(_)) => true,
        (TyView::FixedSizeArray(_, _), TyView::FixedSizeArray(_, _)) => true,
        (TyView::ByteArray(_), TyView::ByteArray(_)) => true,
        (TyView::Primitive(_), TyView::Primitive(_)) => true,
        _ => false,
    }
}

/// Whether no two members of a struct and no two variants of an enum share a name.
pub open spec fn names_once(a: TyView) -> bool
    decreases a,
{
    match a {
        TyView::Struct(_, s) => {
            &&& forall|i: int, j: int|
                0 <= i < j < s.len() ==> (#[trigger] s[i]).name != (#[trigger] s[j]).name
            &&& forall|i: int| 0 <= i < s.len() ==> names_once((#[trigger] s[i]).ty)
        },
        TyView::Enum(_, _, s) => {
            &&& forall|i: int, j: int|
                0 <= i < j < s.len() ==> (#[trigger] s[i]).name != (#[trigger] s[j]).name
            &&& forall|i: int| 0 <= i < s.len() ==> names_once((#[trigger] s[i]).ty)
        },
        TyView::Tuple(s) => forall|i: int| 0 <= i < s.len() ==> names_once(#[trigger] s[i]),
        _ => true,
    }
}

/// Whether what the first struct has more than the second holds, unchanged, every member of the
/// first that the second has none of the name of.
pub open spec fn holds_new_members(a: TyView, b: TyView, more: Option<TyView>) -> bool {
    match (a, b) {
        (TyView::Struct(name, s), TyView::Struct(_, t)) => forall|i: int|
            0 <= i < s.len() && member_named(t, (#[trigger] s[i]).name) is None ==> (more matches Some(
                TyView::Struct(n, c),
            ) && n == name && c.contains(s[i])),
        _ => true,
    }
}

/// What `dojo_types::schema::Ty::diff` gives of the first type against the second.
pub uninterp spec fn difference(a: TyView, b: TyView) -> Option<TyView>;

/// `dojo_types::schema::Ty::diff` gives what a type has that another has not, which depends on the
/// two alone. It keeps the new members of a struct as they are, and finds nothing in a type that is
/// held against itself. Types that cannot be held against each other are left out.
#[verifier::external_body]
fn outer_diff(a: &OuterTy, b: &OuterTy) -> (r: Option<OuterTy>)
    requires
        comparable(held(*a), held(*b)),
    ensures
        opt_held(r) == difference(held(*a), held(*b)),
        holds_new_members(held(*a), held(*b), opt_held(r)),
        held(*a) == held(*b) && names_once(held(*a)) ==> r is None,
{
    a.diff(b)
}

/// What a type of `dojo_types` holds, if there is one.
pub open spec fn opt_held(t: Option<OuterTy>) -> Option<TyView> {
    match t {
        Some(x) => Some(held(x)),
        None => None,
    }
}

/// What a type holds, if there is one.
pub open spec fn opt_ty(t: Option<Ty>) -> Option<TyView> {
    match t {
        Some(x) => Some(x.view()),
        None => None,
    }
}

impl Ty {
    /// What this type has that the other has not.
    pub fn diff(&self, other: &Ty) -> (r: Option<Ty>)
        requires
            elements_wf(self.view()),
            elements_wf(other.view()),
            comparable(self.view(), other.view()),
        ensures
            opt_ty(r) == difference(self.view(), other.view()),
            holds_new_members(self.view(), other.view(), opt_ty(r)),
            self.view() == other.view() && names_once(self.view()) ==> r is None,
            r matches Some(t) ==> elements_wf(t.view()),
    {
        match outer_diff(&outer_ty(self), &outer_ty(other)) {
            Some(t) => Some(inner_ty(&t)),
            None => None,
        }
    }
}

} // verus!

//! Schemas and values of models: primitives, structs, enums, tuples and arrays.
use vstd::prelude::*;
use vstd::string::*;
use crate::digits::{decimal, digits_of};
use crate::felt::{wide, wide_order, Felt};
use crate::text::{concat, join, join_with, views};

verus! {

/// An unsigned integer of 256 bits, by its two halves.
#[derive(Clone, Copy, Debug, PartialEq, Eq, Hash, Structural)]
pub struct U256 {
    /// The upper 128 bits.
    pub hi: u128,
    /// The lower 128 bits.
    pub lo: u128,
}

impl U256 {
    /// The number that the halves stand for.
    pub open spec fn value(self) -> nat {
        wide(self.hi as nat, self.lo as nat)
    }
}

/// A value of a scalar type, absent where only the type is known.
#[derive(Clone, Copy, Debug, PartialEq, Eq, Hash, Structural)]
pub enum Primitive {
    I8(Option<i8>),
    I16(Option<i16>),
    I32(Option<i32>),
    I64(Option<i64>),
    I128(Option<i128>),
    U8(Option<u8>),
    U16(Option<u16>),
    U32(Option<u32>),
    U64(Option<u64>),
    U128(Option<u128>),
    U256(Option<U256>),
    Bool(Option<bool>),
    Felt252(Option<Felt>),
    ClassHash(Option<Felt>),
    ContractAddress(Option<Felt>),
    EthAddress(Option<Felt>),
}

/// The value as a number; a `bool` as zero or one.
pub open spec fn payload(p: Primitive) -> Option<int> {
    match p {
        Primitive::I8(Some(v)) => Some(v as int),
        Primitive::I16(Some(v)) => Some(v as int),
        Primitive::I32(Some(v)) => Some(v as int),
        Primitive::I64(Some(v)) => Some(v as int),
        Primitive::I128(Some(v)) => Some(v as int),
        Primitive::U8(Some(v)) => Some(v as int),
        Primitive::U16(Some(v)) => Some(v as int),
        Primitive::U32(Some(v)) => Some(v as int),
        Primitive::U64(Some(v)) => Some(v as int),
        Primitive::U128(Some(v)) => Some(v as int),
        Primitive::U256(Some(v)) => Some(v.value() as int),
        Primitive::Bool(Some(v)) => Some(if v {
            1
        } else {
            0
        }),
        Primitive::Felt252(Some(v)) => Some(v.value() as int),
        Primitive::ClassHash(Some(v)) => Some(v.value() as int),
        Primitive::ContractAddress(Some(v)) => Some(v.value() as int),
        Primitive::EthAddress(Some(v)) => Some(v.value() as int),
        _ => None,
    }
}

/// The place of the scalar type among the scalar types.
pub open spec fn rank(p: Primitive) -> int {
    match p {
        Primitive::I8(_) => 0,
        Primitive::I16(_) => 1,
        Primitive::I32(_) => 2,
        Primitive::I64(_) => 3,
        Primitive::I128(_) => 4,
        Primitive::U8(_) => 5,
        Primitive::U16(_) => 6,
        Primitive::U32(_) => 7,
        Primitive::U64(_) => 8,
        Primitive::U128(_) => 9,
        Primitive::U256(_) => 10,
        Primitive::Bool(_) => 11,
        Primitive::Felt252(_) => 12,
        Primitive::ClassHash(_) => 13,
        Primitive::ContractAddress(_) => 14,
        Primitive::EthAddress(_) => 15,
    }
}

/// The order of primitives: by type, then an absent value first, then by number.
pub open spec fn primitive_less(a: Primitive, b: Primitive) -> bool {
    rank(a) < rank(b) || (rank(a) == rank(b) && match (payload(a), payload(b)) {
        (None, Some(_)) => true,
        (Some(x), Some(y)) => x < y,
        _ => false,
    })
}

/// The order of primitives of equal type and equal value is no order: they are one primitive.
pub proof fn primitive_order_is_total(a: Primitive, b: Primitive)
    ensures
        primitive_less(a, b) || primitive_less(b, a) || a == b,
        !(primitive_less(a, b) && primitive_less(b, a)),
{
    match (a, b) {
        (Primitive::U256(Some(x)), Primitive::U256(Some(y))) => {
            wide_order(x.hi as nat, x.lo as nat, y.hi as nat, y.lo as nat);
        },
        (Primitive::Felt252(Some(x)), Primitive::Felt252(Some(y))) => {
            wide_order(x.hi as nat, x.lo as nat, y.hi as nat, y.lo as nat);
        },
        (Primitive::ClassHash(Some(x)), Primitive::ClassHash(Some(y))) => {
            wide_order(x.hi as nat, x.lo as nat, y.hi as nat, y.lo as nat);
        },
        (Primitive::ContractAddress(Some(x)), Primitive::ContractAddress(Some(y))) => {
            wide_order(x.hi as nat, x.lo as nat, y.hi as nat, y.lo as nat);
        },
        (Primitive::EthAddress(Some(x)), Primitive::EthAddress(Some(y))) => {
            wide_order(x.hi as nat, x.lo as nat, y.hi as nat, y.lo as nat);
        },
        _ => {},
    }
}

/// The place of the scalar type among the scalar types.
fn rank_of(p: &Primitive) -> (r: u8)
    ensures
        r == rank(*p),
{
    match p {
        Primitive::I8(_) => 0,
        Primitive::I16(_) => 1,
        Primitive::I32(_) => 2,
        Primitive::I64(_) => 3,
        Primitive::I128(_) => 4,
        Primitive::U8(_) => 5,
        Primitive::U16(_) => 6,
        Primitive::U32(_) => 7,
        Primitive::U64(_) => 8,
        Primitive::U128(_) => 9,
        Primitive::U256(_) => 10,
        Primitive::Bool(_) => 11,
        Primitive::Felt252(_) => 12,
        Primitive::ClassHash(_) => 13,
        Primitive::ContractAddress(_) => 14,
        Primitive::EthAddress(_) => 15,
    }
}

/// The value of a signed primitive, whose type is at most the fifth.
fn signed_payload(p: &Primitive) -> (r: Option<i128>)
    requires
        rank(*p) < 5,
    ensures
        match r {
            Some(v) => payload(*p) == Some(v as int),
            None => payload(*p) is None,
        },
{
    match p {
        Primitive::I8(Some(v)) => Some(*v as i128),
        Primitive::I16(Some(v)) => Some(*v as i128),
        Primitive::I32(Some(v)) => Some(*v as i128),
        Primitive::I64(Some(v)) => Some(*v as i128),
        Primitive::I128(Some(v)) => Some(*v),
        _ => None,
    }
}

/// The halves of the value of an unsigned primitive.
fn unsigned_payload(p: &Primitive) -> (r: Option<(u128, u128)>)
    requires
        rank(*p) >= 5,
    ensures
        match r {
            Some(v) => payload(*p) == Some(wide(v.0 as nat, v.1 as nat) as int),
            None => payload(*p) is None,
        },
{
    match p {
        Primitive::U8(Some(v)) => Some((0, *v as u128)),
        Primitive::U16(Some(v)) => Some((0, *v as u128)),
        Primitive::U32(Some(v)) => Some((0, *v as u128)),
        Primitive::U64(Some(v)) => Some((0, *v as u128)),
        Primitive::U128(Some(v)) => Some((0, *v)),
        Primitive::U256(Some(v)) => Some((v.hi, v.lo)),
        Primitive::Bool(Some(v)) => if *v {
            Some((0, 1))
        } else {
            Some((0, 0))
        },
        Primitive::Felt252(Some(v)) => Some((v.hi, v.lo)),
        Primitive::ClassHash(Some(v)) => Some((v.hi, v.lo)),
        Primitive::ContractAddress(Some(v)) => Some((v.hi, v.lo)),
        Primitive::EthAddress(Some(v)) => Some((v.hi, v.lo)),
        _ => None,
    }
}

impl Primitive {
    /// Whether this primitive stands before `other`.
    pub fn less(&self, other: &Primitive) -> (r: bool)
        ensures
            r == primitive_less(*self, *other),
    {
        let a: u8 = rank_of(self);
        let b: u8 = rank_of(other);
        if a != b {
            return a < b;
        }
        if a < 5 {
            match (signed_payload(self), signed_payload(other)) {
                (None, Some(_)) => true,
                (Some(x), Some(y)) => x < y,
                _ => false,
            }
        } else {
            match (unsigned_payload(self), unsigned_payload(other)) {
                (None, Some(_)) => true,
                (Some(x), Some(y)) => {
                    proof {
                        wide_order(x.0 as nat, x.1 as nat, y.0 as nat, y.1 as nat);
                    }
                    x.0 < y.0 || (x.0 == y.0 && x.1 < y.1)
                },
                _ => false,
            }
        }
    }

    /// The value of a primitive of 32 unsigned bits.
    pub fn as_u32(&self) -> (r: Option<u32>)
        ensures
            r == (match *self {
                Primitive::U32(v) => v,
                _ => None,
            }),
    {
        match self {
            Primitive::U32(v) => *v,
            _ => None,
        }
    }

    /// The name of the scalar type.
    pub open spec fn scalar_name(self) -> Seq<char> {
        match self {
            Primitive::I8(_) => "i8"@,
            Primitive::I16(_) => "i16"@,
            Primitive::I32(_) => "i32"@,
            Primitive::I64(_) => "i64"@,
            Primitive::I128(_) => "i128"@,
            Primitive::U8(_) => "u8"@,
            Primitive::U16(_) => "u16"@,
            Primitive::U32(_) => "u32"@,
            Primitive::U64(_) => "u64"@,
            Primitive::U128(_) => "u128"@,
            Primitive::U256(_) => "u256"@,
            Primitive::Bool(_) => "bool"@,
            Primitive::Felt252(_) => "felt252"@,
            Primitive::ClassHash(_) => "ClassHash"@,
            Primitive::ContractAddress(_) => "ContractAddress"@,
            Primitive::EthAddress(_) => "EthAddress"@,
        }
    }

    /// The name of the scalar type.
    pub fn name(&self) -> (r: &'static str)
        ensures
            r@ == self.scalar_name(),
    {
        match self {
            Primitive::I8(_) => "i8",
            Primitive::I16(_) => "i16",
            Primitive::I32(_) => "i32",
            Primitive::I64(_) => "i64",
            Primitive::I128(_) => "i128",
            Primitive::U8(_) => "u8",
            Primitive::U16(_) => "u16",
            Primitive::U32(_) => "u32",
            Primitive::U64(_) => "u64",
            Primitive::U128(_) => "u128",
            Primitive::U256(_) => "u256",
            Primitive::Bool(_) => "bool",
            Primitive::Felt252(_) => "felt252",
            Primitive::ClassHash(_) => "ClassHash",
            Primitive::ContractAddress(_) => "ContractAddress",
            Primitive::EthAddress(_) => "EthAddress",
        }
    }
}

/// A named field of a struct.
#[derive(Debug)]
pub struct Member {
    pub name: String,
    pub ty: Ty,
    pub key: bool,
}

/// A struct with its fields in order.
#[derive(Debug)]
pub struct Struct {
    pub name: String,
    pub children: Vec<Member>,
}

/// One variant of an enum.
#[derive(Debug)]
pub struct EnumOption {
    pub name: String,
    pub ty: Ty,
}

/// An enum with the index of the selected variant.
#[derive(Debug)]
pub struct Enum {
    pub name: String,
    pub option: Option<u8>,
    pub options: Vec<EnumOption>,
}

/// The type of a model or of one of its members, together with its value.
#[derive(Debug)]
pub enum Ty {
    Primitive(Primitive),
    Struct(Struct),
    Enum(Enum),
    Tuple(Vec<Ty>),
    Array(Vec<Ty>),
    ByteArray(String),
    FixedSizeArray(Vec<Ty>, u32),
}

impl Enum {
    /// The selected variant, if one is selected and exists.
    pub open spec fn selected(self) -> Option<EnumOption> {
        match self.option {
            Some(i) => if (i as int) < self.options@.len() {
                Some(self.options@[i as int])
            } else {
                None
            },
            None => None,
        }
    }

    /// The selected variant, if one is selected and exists.
    pub fn option(&self) -> (r: Option<&EnumOption>)
        ensures
            match r {
                Some(o) => self.selected() == Some(*o),
                None => self.selected() is None,
            },
    {
        match self.option {
            Some(i) => if (i as usize) < self.options.len() {
                Some(&self.options[i as usize])
            } else {
                None
            },
            None => None,
        }
    }
}

/// The name of a type: its own for a struct or enum, one made of its parts for the others.
pub open spec fn ty_name(ty: Ty) -> Seq<char>
    decreases ty, 0nat,
{
    match ty {
        Ty::Primitive(p) => p.scalar_name(),
        Ty::Struct(s) => s.name@,
        Ty::Enum(e) => e.name@,
        Ty::Tuple(tys) => "("@ + join(ty_names(tys, tys@.len()), ", "@) + ")"@,
        Ty::Array(tys) => if tys@.len() > 0 {
            "Array<"@ + ty_name(tys@[0]) + ">"@
        } else {
            "Array"@
        },
        Ty::FixedSizeArray(tys, size) => if tys@.len() > 0 {
            "["@ + ty_name(tys@[0]) + "; "@ + digits_of(size as nat, 10) + "]"@
        } else {
            "[; 0]"@
        },
        Ty::ByteArray(_) => "ByteArray"@,
    }
}

/// The names of the first `n` types.
pub open spec fn ty_names(tys: Vec<Ty>, n: nat) -> Seq<Seq<char>>
    decreases tys, n,
{
    if n == 0 || n > tys@.len() {
        Seq::empty()
    } else {
        ty_names(tys, (n - 1) as nat).push(ty_name(tys@[n - 1]))
    }
}

impl Ty {
    /// The name of the type.
    pub fn name(&self) -> (r: String)
        ensures
            r@ == ty_name(*self),
        decreases self,
    {
        match self {
            Ty::Primitive(p) => p.name().to_owned(),
            Ty::Struct(s) => s.name.clone(),
            Ty::Enum(e) => e.name.clone(),
            Ty::Tuple(tys) => {
                let mut names: Vec<String> = Vec::new();
                let mut i: usize = 0;
                proof {
                    assert(views(names@) =~= ty_names(*tys, 0));
                }
                while i < tys.len()
                    invariant
                        i <= tys@.len(),
                        views(names@) == ty_names(*tys, i as nat),
                        self is Tuple,
                        self->Tuple_0 == *tys,
                    decreases tys@.len() - i,
                {
                    let ghost before = names@;
                    proof {
                        assert(decreases_to!(*self => self->Tuple_0));
                        assert(decreases_to!(*tys => tys[i as int]));
                    }
                    names.push(tys[i].name());
                    i = i + 1;
                    proof {
                        assert(views(names@) =~= views(before).push(names@.last()@));
                    }
                }
                let inner = join_with(&names, ", ");
                concat(&concat("(", &inner), ")")
            },
            Ty::Array(tys) => if tys.len() > 0 {
                concat(&concat("Array<", &tys[0].name()), ">")
            } else {
                "Array".to_owned()
            },
            Ty::FixedSizeArray(tys, size) => if tys.len() > 0 {
                concat(
                    &concat(
                        &concat(&concat("[", &tys[0].name()), "; "),
                        &decimal(*size as u64),
                    ),
                    "]",
                )
            } else {
                "[; 0]".to_owned()
            },
            Ty::ByteArray(_) => "ByteArray".to_owned(),
        }
    }
}

/// A type together with its value, by what it holds.
pub enum TyView {
    Primitive(Primitive),
    Struct(Seq<char>, Seq<MemberView>),
    Enum(Seq<char>, Option<u8>, Seq<OptionView>),
    Tuple(Seq<TyView>),
    Array(Seq<TyView>),
    ByteArray(Seq<char>),
    FixedSizeArray(Seq<TyView>, u32),
}

/// A named field of a struct, by what it holds.
pub struct MemberView {
    pub name: Seq<char>,
    pub ty: TyView,
    pub key: bool,
}

/// One variant of an enum, by what it holds.
pub struct OptionView {
    pub name: Seq<char>,
    pub ty: TyView,
}

/// What the types of a list hold, one for one.
pub open spec fn list_view(v: Vec<Ty>) -> Seq<TyView>
    decreases v,
{
    Seq::new(
        v@.len(),
        |i: int|
            if 0 <= i < v@.len() {
                v[i].view()
            } else {
                arbitrary()
            },
    )
}

/// What the members hold, one for one.
pub open spec fn members_view(v: Vec<Member>) -> Seq<MemberView>
    decreases v,
{
    Seq::new(
        v@.len(),
        |i: int|
            if 0 <= i < v@.len() {
                MemberView { name: v[i].name@, ty: v[i].ty.view(), key: v[i].key }
            } else {
                arbitrary()
            },
    )
}

/// What the variants hold, one for one.
pub open spec fn options_view(v: Vec<EnumOption>) -> Seq<OptionView>
    decreases v,
{
    Seq::new(
        v@.len(),
        |i: int|
            if 0 <= i < v@.len() {
                OptionView { name: v[i].name@, ty: v[i].ty.view() }
            } else {
                arbitrary()
            },
    )
}

impl Ty {
    /// What the type holds.
    pub open spec fn view(&self) -> TyView
        decreases self,
    {
        match self {
            Ty::Primitive(p) => TyView::Primitive(*p),
            Ty::Struct(s) => TyView::Struct(s.name@, members_view(s.children)),
            Ty::Enum(e) => TyView::Enum(e.name@, e.option, options_view(e.options)),
            Ty::Tuple(v) => TyView::Tuple(list_view(*v)),
            Ty::Array(v) => TyView::Array(list_view(*v)),
            Ty::ByteArray(s) => TyView::ByteArray(s@),
            Ty::FixedSizeArray(v, n) => TyView::FixedSizeArray(list_view(*v), *n),
        }
    }

    /// A copy of the type with its value.
    pub fn copy(&self) -> (r: Ty)
        ensures
            r.view() == self.view(),
        decreases self, 0nat,
    {
        match self {
            Ty::Primitive(p) => Ty::Primitive(*p),
            Ty::Struct(s) => {
                let mut children: Vec<Member> = Vec::new();
                let mut i: usize = 0;
                while i < s.children.len()
                    invariant
                        i <= s.children@.len(),
                        *self == Ty::Struct(*s),
                        children@.len() == i,
                        forall|k: int|
                            0 <= k < i ==> (#[trigger] children[k]).name@ == s.children[k].name@
                                && children[k].ty.view() == s.children[k].ty.view()
                                && children[k].key == s.children[k].key,
                    decreases s.children@.len() - i,
                {
                    let m = &s.children[i];
                    proof {
                        assert(decreases_to!(*self => self->Struct_0));
                        assert(decreases_to!(s.children => s.children[i as int]));
                    }
                    let ghost before = children;
                    children.push(Member { name: m.name.clone(), ty: m.ty.copy(), key: m.key });
                    proof {
                        assert forall|k: int| 0 <= k < i + 1 implies (
                        #[trigger] children[k]).name@ == s.children[k].name@
                            && children[k].ty.view() == s.children[k].ty.view()
                            && children[k].key == s.children[k].key by {
                            if k < i {
                                assert(children[k] == before[k]);
                            }
                        }
                    }
                    i = i + 1;
                }
                proof {
                    assert(members_view(children) =~= members_view(s.children));
                }
                Ty::Struct(Struct { name: s.name.clone(), children })
            },
            Ty::Enum(e) => {
                let mut options: Vec<EnumOption> = Vec::new();
                let mut i: usize = 0;
                while i < e.options.len()
                    invariant
                        i <= e.options@.len(),
                        *self == Ty::Enum(*e),
                        options@.len() == i,
                        forall|k: int|
                            0 <= k < i ==> (#[trigger] options[k]).name@ == e.options[k].name@
                                && options[k].ty.view() == e.options[k].ty.view(),
                    decreases e.options@.len() - i,
                {
                    let o = &e.options[i];
                    proof {
                        assert(decreases_to!(*self => self->Enum_0));
                        assert(decreases_to!(e.options => e.options[i as int]));
                    }
                    let ghost before = options;
                    options.push(EnumOption { name: o.name.clone(), ty: o.ty.copy() });
                    proof {
                        assert forall|k: int| 0 <= k < i + 1 implies (
                        #[trigger] options[k]).name@ == e.options[k].name@ && options[k].ty.view()
                            == e.options[k].ty.view() by {
                            if k < i {
                                assert(options[k] == before[k]);
                            }
                        }
                    }
                    i = i + 1;
                }
                proof {
                    assert(options_view(options) =~= options_view(e.options));
                }
                Ty::Enum(Enum { name: e.name.clone(), option: e.option, options })
            },
            Ty::Tuple(v) => Ty::Tuple(copy_list(v)),
            Ty::Array(v) => Ty::Array(copy_list(v)),
            Ty::ByteArray(s) => Ty::ByteArray(s.clone()),
            Ty::FixedSizeArray(v, n) => Ty::FixedSizeArray(copy_list(v), *n),
        }
    }
}

/// A copy of a list of types with their values.
fn copy_list(v: &Vec<Ty>) -> (r: Vec<Ty>)
    ensures
        list_view(r) == list_view(*v),
    decreases v, 1nat,
{
    let mut out: Vec<Ty> = Vec::new();
    let mut i: usize = 0;
    while i < v.len()
        invariant
            i <= v@.len(),
            out@.len() == i,
            forall|k: int| 0 <= k < i ==> (#[trigger] out[k]).view() == v[k].view(),
        decreases v@.len() - i,
    {
        proof {
            assert(decreases_to!(*v => v[i as int]));
        }
        let ghost before = out;
        out.push(v[i].copy());
        proof {
            assert forall|k: int| 0 <= k < i + 1 implies (#[trigger] out[k]).view()
                == v[k].view() by {
                if k < i {
                    assert(out[k] == before[k]);
                }
            }
        }
        i = i + 1;
    }
    proof {
        assert(list_view(out) =~= list_view(*v));
    }
    out
}

} // verus!

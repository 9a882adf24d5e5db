//! The type-information object model: the exec data types that parsing
//! produces, their ghost counterparts, and the relation that ties an exec
//! value to its ghost model.

use vstd::prelude::*;

use crate::codec::{DE, DT, SDACL, TAH, TypeAttribute};
use crate::flags::TypeMetadata;
use crate::strutil::utf8_lossy_of;

verus! {

broadcast use vstd::seq::group_seq_axioms;

/// A `dt`-length-prefixed byte run.
#[derive(Debug)]
pub struct DTBytes {
    pub dt: DT,
    pub bytes: Vec<u8>,
}

/// One of the format's type-information values.  Every variant keeps its
/// originating tag byte.
#[derive(Debug)]
pub enum Types {
    Unset(TypeMetadata),
    Pointer(Box<Pointer>),
    Function(Box<Function>),
    Array(Box<Array>),
    Typedef(Typedef),
    Struct(Box<Struct>),
    Union(Box<Union>),
    Enum(Box<Enum>),
    Bitfield(Bitfield),
    Unknown(Vec<u8>),
}

impl Default for Types {
    fn default() -> (r: Self)
        ensures
            r == Types::Unset(TypeMetadata(0)),
    {
        Types::Unset(TypeMetadata(0))
    }
}

#[derive(Debug)]
pub struct Pointer {
    pub metadata: TypeMetadata,
    pub closure: Option<Types>,
    pub based_ptr_size: u8,
    pub tah: TAH,
    pub typ: Types,
}

#[derive(Debug)]
pub struct FuncArgs(pub Types);

#[derive(Debug)]
pub struct Function {
    pub metadata: TypeMetadata,
    pub cc: TypeMetadata,
    pub ret: Types,
    pub args: Vec<FuncArgs>,
}

#[derive(Debug)]
pub struct Array {
    pub metadata: TypeMetadata,
    pub is_non_based: bool,
    pub base: u8,
    pub nelem: u16,
    pub tah: TAH,
    pub elem_type: Types,
}

#[derive(Debug)]
pub struct Typedef {
    pub metadata: TypeMetadata,
    pub buf: DTBytes,
    pub is_ordref: bool,
    pub ordinal: DE,
    pub name: String,
}

/// A member of a struct: its type and the optional attribute that follows.
#[derive(Debug)]
pub struct StructMember(pub Types, pub SDACL);

/// A member of a union: just its type.
#[derive(Debug)]
pub struct UnionMember(pub Types);

/// The re-parsed body of a reference-form composite.
#[derive(Debug)]
pub struct Ref(pub Types);

#[derive(Debug)]
pub struct Struct {
    pub metadata: TypeMetadata,
    pub is_ref: bool,
    pub ref_type: Ref,
    pub effective_alignment: u16,
    pub taudt_bits: SDACL,
    pub members: Vec<StructMember>,
}

#[derive(Debug)]
pub struct Union {
    pub metadata: TypeMetadata,
    pub is_ref: bool,
    pub ref_type: Ref,
    pub effective_alignment: u16,
    pub taudt_bits: SDACL,
    pub members: Vec<UnionMember>,
}

/// One enumerant: the accumulated value, not the stored delta.
#[derive(Clone, Copy, Debug, PartialEq, Eq, Structural)]
pub struct EnumMember(pub u64);

#[derive(Debug)]
pub struct Enum {
    pub metadata: TypeMetadata,
    pub group_sizes: Vec<DT>,
    pub taenum_bits: TypeAttribute,
    pub bte: u8,
    pub members: Vec<EnumMember>,
    pub ref_type: Ref,
    pub is_ref: bool,
    pub bytesize: u64,
}

#[derive(Clone, Copy, Debug, PartialEq, Eq, Structural)]
pub struct Bitfield {
    pub metadata: TypeMetadata,
    pub unsigned: bool,
    pub width: u16,
    pub nbytes: i32,
}

/// The ghost counterpart of `Types`: plain values, `Seq` in place of `Vec`,
/// and no strings (a typedef's name is a function of its buffer).
pub ghost enum TypeV {
    Unset { meta: u8 },
    Pointer {
        meta: u8,
        closure: Option<Box<TypeV>>,
        based_ptr_size: u8,
        tah: u16,
        pointee: Box<TypeV>,
    },
    Function { meta: u8, cc: u8, ret: Box<TypeV>, args: Seq<TypeV> },
    Array { meta: u8, non_based: bool, base: u8, nelem: u16, tah: u16, elem: Box<TypeV> },
    Typedef { meta: u8, buf: Seq<u8>, dt_width: u8, is_ordref: bool, ordinal: u32 },
    Struct {
        meta: u8,
        is_ref: bool,
        ref_type: Box<TypeV>,
        alignment: u16,
        taudt: u16,
        members: Seq<TypeV>,
        member_attrs: Seq<u16>,
    },
    Union {
        meta: u8,
        is_ref: bool,
        ref_type: Box<TypeV>,
        alignment: u16,
        taudt: u16,
        members: Seq<TypeV>,
    },
    Enum {
        meta: u8,
        is_ref: bool,
        ref_type: Box<TypeV>,
        taenum: u16,
        bte: u8,
        bytesize: u64,
        group_sizes: Seq<(u16, u8)>,
        members: Seq<u64>,
    },
    Bitfield { meta: u8, unsigned: bool, width: u16, nbytes: i32 },
    Unknown { bytes: Seq<u8> },
}

/// The ghost value standing for "no type": what `Types::default()` models.
pub open spec fn unset_zero() -> TypeV {
    TypeV::Unset { meta: 0 }
}

/// A parsed closure option agrees with its model.
pub open spec fn closure_model(c: Option<Types>, cv: Option<Box<TypeV>>) -> bool
    decreases cv,
{
    match cv {
        Some(v) => c matches Some(ct) && models(ct, *v),
        None => c is None,
    }
}

/// Parsed function arguments agree with their models, in order.
pub open spec fn args_model(a: Seq<FuncArgs>, ms: Seq<TypeV>) -> bool
    decreases ms,
{
    &&& a.len() == ms.len()
    &&& forall|i: int| 0 <= i < ms.len() ==> models(#[trigger] a[i].0, ms[i])
}

/// Parsed struct members agree with their models and attributes, in order.
pub open spec fn smembers_model(v: Seq<StructMember>, ms: Seq<TypeV>, ats: Seq<u16>) -> bool
    decreases ms,
{
    &&& v.len() == ms.len()
    &&& ats.len() == ms.len()
    &&& forall|i: int| 0 <= i < ms.len() ==> models(#[trigger] v[i].0, ms[i])
    &&& forall|i: int| 0 <= i < ms.len() ==> v[i].1 == SDACL(TypeAttribute(#[trigger] ats[i]))
}

/// Parsed union members agree with their models, in order.
pub open spec fn umembers_model(v: Seq<UnionMember>, ms: Seq<TypeV>) -> bool
    decreases ms,
{
    &&& v.len() == ms.len()
    &&& forall|i: int| 0 <= i < ms.len() ==> models(#[trigger] v[i].0, ms[i])
}

/// Parsed enum group sizes agree with their models (value and byte width).
pub open spec fn gsizes_model(g: Seq<DT>, sg: Seq<(u16, u8)>) -> bool {
    &&& g.len() == sg.len()
    &&& forall|i: int| 0 <= i < sg.len() ==> g[i] == DT((#[trigger] sg[i]).0, sg[i].1)
}

/// Parsed enum members agree with their models, in order.
pub open spec fn emembers_model(m: Seq<EnumMember>, sm: Seq<u64>) -> bool {
    &&& m.len() == sm.len()
    &&& forall|i: int| 0 <= i < sm.len() ==> m[i] == EnumMember(#[trigger] sm[i])
}

/// The exec value `t` is exactly the model `v`: same variant, equal scalar
/// fields, members in the same order, and the typedef name derived from the
/// buffer by lossy UTF-8 conversion.
pub open spec fn models(t: Types, v: TypeV) -> bool
    decreases v,
{
    match v {
        TypeV::Unset { meta } => t == Types::Unset(TypeMetadata(meta)),
        TypeV::Pointer { meta, closure, based_ptr_size, tah, pointee } => {
            &&& t matches Types::Pointer(bp)
            &&& (*bp).metadata == TypeMetadata(meta)
            &&& closure_model((*bp).closure, closure)
            &&& (*bp).based_ptr_size == based_ptr_size
            &&& (*bp).tah == TAH(TypeAttribute(tah))
            &&& models((*bp).typ, *pointee)
        },
        TypeV::Function { meta, cc, ret, args } => {
            &&& t matches Types::Function(bf)
            &&& (*bf).metadata == TypeMetadata(meta)
            &&& (*bf).cc == TypeMetadata(cc)
            &&& models((*bf).ret, *ret)
            &&& args_model((*bf).args@, args)
        },
        TypeV::Array { meta, non_based, base, nelem, tah, elem } => {
            &&& t matches Types::Array(ba)
            &&& (*ba).metadata == TypeMetadata(meta)
            &&& (*ba).is_non_based == non_based
            &&& (*ba).base == base
            &&& (*ba).nelem == nelem
            &&& (*ba).tah == TAH(TypeAttribute(tah))
            &&& models((*ba).elem_type, *elem)
        },
        TypeV::Typedef { meta, buf, dt_width, is_ordref, ordinal } => {
            &&& t matches Types::Typedef(td)
            &&& td.metadata == TypeMetadata(meta)
            &&& td.buf.bytes@ == buf
            &&& td.buf.dt == DT(buf.len() as u16, dt_width)
            &&& td.is_ordref == is_ordref
            &&& td.ordinal == DE(ordinal)
            &&& td.name@ == if is_ordref {
                Seq::<char>::empty()
            } else {
                utf8_lossy_of(buf)
            }
        },
        TypeV::Struct { meta, is_ref, ref_type, alignment, taudt, members, member_attrs } => {
            &&& t matches Types::Struct(bs)
            &&& (*bs).metadata == TypeMetadata(meta)
            &&& (*bs).is_ref == is_ref
            &&& models((*bs).ref_type.0, *ref_type)
            &&& (*bs).effective_alignment == alignment
            &&& (*bs).taudt_bits == SDACL(TypeAttribute(taudt))
            &&& smembers_model((*bs).members@, members, member_attrs)
        },
        TypeV::Union { meta, is_ref, ref_type, alignment, taudt, members } => {
            &&& t matches Types::Union(bu)
            &&& (*bu).metadata == TypeMetadata(meta)
            &&& (*bu).is_ref == is_ref
            &&& models((*bu).ref_type.0, *ref_type)
            &&& (*bu).effective_alignment == alignment
            &&& (*bu).taudt_bits == SDACL(TypeAttribute(taudt))
            &&& umembers_model((*bu).members@, members)
        },
        TypeV::Enum { meta, is_ref, ref_type, taenum, bte, bytesize, group_sizes, members } => {
            &&& t matches Types::Enum(be)
            &&& (*be).metadata == TypeMetadata(meta)
            &&& (*be).is_ref == is_ref
            &&& models((*be).ref_type.0, *ref_type)
            &&& (*be).taenum_bits == TypeAttribute(taenum)
            &&& (*be).bte == bte
            &&& (*be).bytesize == bytesize
            &&& gsizes_model((*be).group_sizes@, group_sizes)
            &&& emembers_model((*be).members@, members)
        },
        TypeV::Bitfield { meta, unsigned, width, nbytes } => {
            &&& t matches Types::Bitfield(bf)
            &&& bf == (Bitfield { metadata: TypeMetadata(meta), unsigned, width, nbytes })
        },
        TypeV::Unknown { bytes } => {
            &&& t matches Types::Unknown(raw)
            &&& raw@ == bytes
        },
    }
}

impl Types {
    /// The tag byte of a parsed type, for every variant that carries one.
    pub fn get_metadata(&self) -> (r: Option<&TypeMetadata>)
        ensures
            match *self {
                Types::Pointer(ref p) => r == Some(&p.metadata),
                Types::Function(ref f) => r == Some(&f.metadata),
                Types::Array(ref a) => r == Some(&a.metadata),
                Types::Typedef(ref td) => r == Some(&td.metadata),
                Types::Struct(ref s) => r == Some(&s.metadata),
                Types::Union(ref u) => r == Some(&u.metadata),
                Types::Enum(ref e) => r == Some(&e.metadata),
                Types::Bitfield(ref b) => r == Some(&b.metadata),
                Types::Unset(_) => r is None,
                Types::Unknown(_) => r is None,
            },
    {
        match self {
            Types::Pointer(m) => Some(&m.metadata),
            Types::Function(m) => Some(&m.metadata),
            Types::Array(m) => Some(&m.metadata),
            Types::Typedef(m) => Some(&m.metadata),
            Types::Struct(m) => Some(&m.metadata),
            Types::Union(m) => Some(&m.metadata),
            Types::Enum(m) => Some(&m.metadata),
            Types::Bitfield(m) => Some(&m.metadata),
            Types::Unset(_) => None,
            Types::Unknown(_) => None,
        }
    }
}

} // verus!

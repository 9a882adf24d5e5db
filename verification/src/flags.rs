//! The type tag byte and its overlapping views: base type, full type,
//! type flag, and calling convention.

use vstd::prelude::*;

verus! {

/// The raw tag byte that introduces every type-information value.
#[derive(Clone, Copy, Debug, PartialEq, Eq, Structural)]
pub struct TypeMetadata(pub u8);

/// The low four bits of a tag byte.
#[derive(Clone, Copy, Debug, PartialEq, Eq, Structural)]
pub struct BaseTypeFlag(pub u8);

/// The low six bits of a tag byte, used for composite discrimination.
#[derive(Clone, Copy, Debug, PartialEq, Eq, Structural)]
pub struct FullTypeFlag(pub u8);

/// Bits 4-5 of a tag byte.
#[derive(Clone, Copy, Debug, PartialEq, Eq, Structural)]
pub struct TypeFlag(pub u8);

/// The high four bits of a function's calling-convention byte.
#[derive(Clone, Copy, Debug, PartialEq, Eq, Structural)]
pub struct CallingConventionFlag(pub u8);

impl TypeMetadata {
    pub fn get_base_type_flag(&self) -> (r: BaseTypeFlag)
        ensures
            r.0 == self.0 & 0x0f,
    {
        BaseTypeFlag(self.0 & 0x0f)
    }

    pub fn get_full_type_flag(&self) -> (r: FullTypeFlag)
        ensures
            r.0 == self.0 & 0x3f,
    {
        FullTypeFlag(self.0 & 0x3f)
    }

    pub fn get_type_flag(&self) -> (r: TypeFlag)
        ensures
            r.0 == self.0 & 0x30,
    {
        TypeFlag(self.0 & 0x30)
    }

    pub fn get_calling_convention(&self) -> (r: CallingConventionFlag)
        ensures
            r.0 == self.0 & 0xf0,
    {
        CallingConventionFlag(self.0 & 0xf0)
    }
}

impl CallingConventionFlag {
    pub fn is_spoiled(&self) -> (r: bool)
        ensures
            r == (self.0 == 0xa0),
    {
        self.0 == 0xa0
    }

    pub fn is_void_arg(&self) -> (r: bool)
        ensures
            r == (self.0 == 0x20),
    {
        self.0 == 0x20
    }

    pub fn is_special_pe(&self) -> (r: bool)
        ensures
            r == (self.0 == 0xd0 || self.0 == 0xe0 || self.0 == 0xf0),
    {
        self.0 == 0xd0 || self.0 == 0xe0 || self.0 == 0xf0
    }
}

impl TypeFlag {
    pub fn is_non_based(&self) -> (r: bool)
        ensures
            r == (self.0 == 0x10),
    {
        self.0 == 0x10
    }

    pub fn is_unsigned(&self) -> (r: bool)
        ensures
            r == (self.0 == 0x20),
    {
        self.0 == 0x20
    }

    pub fn is_signed(&self) -> (r: bool)
        ensures
            r == (self.0 != 0x20),
    {
        !self.is_unsigned()
    }

    pub fn is_type_closure(&self) -> (r: bool)
        ensures
            r == (self.0 == 0x30),
    {
        self.0 == 0x30
    }
}

impl FullTypeFlag {
    pub fn is_enum(&self) -> (r: bool)
        ensures
            r == (self.0 == 0x2d),
    {
        self.0 == 0x2d
    }

    pub fn is_void(&self) -> (r: bool)
        ensures
            r == (self.0 == 0x01),
    {
        self.0 == 0x01
    }

    pub fn is_struct(&self) -> (r: bool)
        ensures
            r == (self.0 == 0x0d),
    {
        self.0 == 0x0d
    }

    pub fn is_union(&self) -> (r: bool)
        ensures
            r == (self.0 == 0x1d),
    {
        self.0 == 0x1d
    }

    pub fn is_struct_or_union(&self) -> (r: bool)
        ensures
            r == (self.0 == 0x0d || self.0 == 0x1d),
    {
        self.is_struct() || self.is_union()
    }

    pub fn is_typedef(&self) -> (r: bool)
        ensures
            r == (self.0 == 0x3d),
    {
        self.0 == 0x3d
    }
}

impl BaseTypeFlag {
    pub fn is_pointer(&self) -> (r: bool)
        ensures
            r == (self.0 == 0x0a),
    {
        self.0 == 0x0a
    }

    pub fn is_function(&self) -> (r: bool)
        ensures
            r == (self.0 == 0x0c),
    {
        self.0 == 0x0c
    }

    pub fn is_array(&self) -> (r: bool)
        ensures
            r == (self.0 == 0x0b),
    {
        self.0 == 0x0b
    }

    pub fn is_bitfield(&self) -> (r: bool)
        ensures
            r == (self.0 == 0x0e),
    {
        self.0 == 0x0e
    }

    pub fn is_typeid_last(&self) -> (r: bool)
        ensures
            r == (self.0 <= 0x09),
    {
        self.0 <= 0x09
    }

    pub fn is_reserved(&self) -> (r: bool)
        ensures
            r == (self.0 == 0x0f),
    {
        self.0 == 0x0f
    }
}

} // verus!

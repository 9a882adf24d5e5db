//! Parser for the on-disk container format of an interactive-disassembler
//! database ("IDB") and its companion standalone type-library files ("TIL").
//!
//! The parser is a pure function from a contiguous byte slice to an
//! immutable object model: the outer section framing, the ID0 B-tree
//! key-value store, and the TIL type-information grammar.  Every public
//! function carries a contract against a spec-level mirror of the format.

pub mod codec;
pub mod errors;
pub mod flags;
pub mod grammar;
pub mod id0;
pub mod idb;
pub mod laws;
pub mod parse;
pub mod sections;
pub mod strutil;
pub mod til;
pub mod types;

pub use crate::codec::{DE, DT, SDACL, TAH, TypeAttribute, serialize_dt};
pub use crate::errors::{BucketFailure, CodecError, GrammarError, IDBError};
pub use crate::flags::{BaseTypeFlag, CallingConventionFlag, FullTypeFlag, TypeFlag, TypeMetadata};
pub use crate::id0::{ID0Section, KeyValueEntry, Page};
pub use crate::idb::{IDB, IDBHeader2};
pub use crate::sections::{ID1Section, ID2Section, IDBSection, IDBSectionHeader, NAMSection, SEGSection};
pub use crate::til::{NullVecLenString, TILBucket, TILBucketType, TILBucketZip, TILFlags, TILOrdinal, TILSection, TILTypeInfo};
pub use crate::types::{Array, Bitfield, DTBytes, Enum, EnumMember, FuncArgs, Function, Pointer, Ref, Struct, StructMember, Typedef, Types, Union, UnionMember};

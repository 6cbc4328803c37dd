//! The Rust items that lowering produces.
use vstd::prelude::*;

use crate::source::{
    DeclarationId, Nullability, RecordCompleteness, RecordKind, SupportStatus, TypeQualifiers,
};

verus! {

/// A Rust scalar type.
#[derive(Debug, Clone, Copy, PartialEq, Eq, Structural)]
pub enum RustScalar {
    Bool,
    /// `core::ffi::c_int`.
    CInt { storage_bits: u16, alignment_bits: u16 },
    /// Any other integer type.
    Integer { signed: bool, storage_bits: u16, alignment_bits: u16 },
    /// `core::ffi::c_float`.
    CFloat { storage_bits: u16, alignment_bits: u16 },
    /// `core::ffi::c_double`.
    CDouble { storage_bits: u16, alignment_bits: u16 },
    F32,
    F64,
}

/// A Rust type, with what its C source said about it.
#[derive(Debug)]
pub struct RustType {
    pub qualifiers: TypeQualifiers,
    pub nullability: Nullability,
    pub support: SupportStatus,
    pub kind: RustTypeKind,
}

/// The shape of a Rust type.
#[derive(Debug)]
pub enum RustTypeKind {
    Void,
    Scalar(RustScalar),
    Pointer(Box<RustType>),
    FixedArray { element: Box<RustType>, elements: u64 },
    FlexibleArray { element: Box<RustType> },
    /// An item of the projection, by its declaration and its Rust name.
    Named { declaration: DeclarationId, rust_name: String },
    FunctionPointer { parameters: Vec<RustType>, return_type: Box<RustType>, variadic: bool },
}

/// A parameter of a lowered function.
#[derive(Debug)]
pub struct RustParameter {
    pub rust_name: String,
    pub ty: RustType,
}

/// A lowered function.
#[derive(Debug)]
pub struct RustFunction {
    pub declaration: DeclarationId,
    pub rust_name: String,
    pub parameters: Vec<RustParameter>,
    pub return_type: RustType,
    pub variadic: bool,
}

/// How a record is lowered.
#[derive(Debug, Clone, Copy, PartialEq, Eq, Structural)]
pub enum RustRecordKind {
    Struct,
    Union,
    Opaque,
}

/// A field of a lowered record, with its measured place.
#[derive(Debug)]
pub struct RustField {
    pub rust_name: String,
    pub ty: RustType,
    pub offset_bits: u64,
    pub size_bits: u64,
    pub alignment_bits: Option<u64>,
    pub support: SupportStatus,
}

/// A lowered record, with its measured layout.
#[derive(Debug)]
pub struct RustRecord {
    pub declaration: DeclarationId,
    pub rust_name: String,
    pub kind: RustRecordKind,
    pub source_kind: RecordKind,
    pub source_completeness: RecordCompleteness,
    pub fields: Vec<RustField>,
    pub size_bits: Option<u64>,
    pub alignment_bits: Option<u64>,
    pub packing_bits: Option<u64>,
}

/// A lowered enum.
#[derive(Debug)]
pub struct RustEnum {
    pub declaration: DeclarationId,
    pub rust_name: String,
    pub storage: RustScalar,
}

/// A lowered type alias.
#[derive(Debug)]
pub struct RustTypeAlias {
    pub declaration: DeclarationId,
    pub rust_name: String,
    pub target: RustType,
}

/// A lowered global variable.
#[derive(Debug)]
pub struct RustVariable {
    pub declaration: DeclarationId,
    pub rust_name: String,
    pub ty: RustType,
    pub thread_local: bool,
}

/// An item of a projection.
#[derive(Debug)]
pub enum RustItem {
    Function(RustFunction),
    Record(RustRecord),
    Enum(RustEnum),
    TypeAlias(RustTypeAlias),
    Variable(RustVariable),
}

impl RustItem {
    /// The declaration that the item was lowered from.
    pub open spec fn id(self) -> DeclarationId {
        match self {
            RustItem::Function(function) => function.declaration,
            RustItem::Record(record) => record.declaration,
            RustItem::Enum(enumeration) => enumeration.declaration,
            RustItem::TypeAlias(alias) => alias.declaration,
            RustItem::Variable(variable) => variable.declaration,
        }
    }

    /// The Rust name of the item.
    pub open spec fn name(self) -> Seq<char> {
        match self {
            RustItem::Function(function) => function.rust_name@,
            RustItem::Record(record) => record.rust_name@,
            RustItem::Enum(enumeration) => enumeration.rust_name@,
            RustItem::TypeAlias(alias) => alias.rust_name@,
            RustItem::Variable(variable) => variable.rust_name@,
        }
    }

    /// The declaration that the item was lowered from.
    pub fn declaration(&self) -> (result: DeclarationId)
        ensures
            result == self.id(),
    {
        match self {
            RustItem::Function(function) => function.declaration,
            RustItem::Record(record) => record.declaration,
            RustItem::Enum(enumeration) => enumeration.declaration,
            RustItem::TypeAlias(alias) => alias.declaration,
            RustItem::Variable(variable) => variable.declaration,
        }
    }

    /// The Rust name of the item.
    pub fn rust_name(&self) -> (result: &String)
        ensures
            result@ == self.name(),
    {
        match self {
            RustItem::Function(function) => &function.rust_name,
            RustItem::Record(record) => &record.rust_name,
            RustItem::Enum(enumeration) => &enumeration.rust_name,
            RustItem::TypeAlias(alias) => &alias.rust_name,
            RustItem::Variable(variable) => &variable.rust_name,
        }
    }
}

/// The items lowered for one request, in the order in which they are emitted.
#[derive(Debug)]
pub struct ValidatedRustProjection {
    pub items: Vec<RustItem>,
}

} // verus!

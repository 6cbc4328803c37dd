//! The C declarations that a generation request works on.
use vstd::prelude::*;

verus! {

/// Identifies a declaration. Identifiers are ordered as numbers.
pub type DeclarationId = u64;

/// Identifies one place where a declaration was written.
pub type OccurrenceId = u64;

/// Identifies a child of a declaration, such as an enum variant.
pub type ChildId = u64;

/// The digest of a source package.
#[derive(Debug, Clone, Copy, PartialEq, Eq, Structural)]
pub struct SourceFingerprint {
    pub high: u128,
    pub low: u128,
}

/// The digest of a target description.
#[derive(Debug, Clone, Copy, PartialEq, Eq, Structural)]
pub struct TargetFingerprint {
    pub high: u128,
    pub low: u128,
}

/// How far the scanner accepted a construct.
#[derive(Debug, Clone, Copy, PartialEq, Eq, Structural)]
pub enum SupportStatus {
    Supported,
    Partial,
    Rejected,
}

impl SupportStatus {
    /// Whether the construct was accepted in full.
    pub fn is_supported(self) -> (result: bool)
        ensures
            result == (self is Supported),
    {
        matches!(self, SupportStatus::Supported)
    }
}

/// The C qualifiers of a type.
#[derive(Debug, Clone, Copy, PartialEq, Eq, Structural)]
pub struct TypeQualifiers {
    pub is_const: bool,
    pub is_volatile: bool,
    pub is_restrict: bool,
    pub is_atomic: bool,
}

impl TypeQualifiers {
    /// Whether no qualifier is set.
    pub open spec fn unqualified(self) -> bool {
        !self.is_const && !self.is_volatile && !self.is_restrict && !self.is_atomic
    }

    /// No qualifier.
    pub fn none() -> (result: TypeQualifiers)
        ensures
            result.unqualified(),
            !result.is_const,
            !result.is_volatile,
            !result.is_restrict,
            !result.is_atomic,
    {
        TypeQualifiers {
            is_const: false,
            is_volatile: false,
            is_restrict: false,
            is_atomic: false,
        }
    }
}

/// What a pointer says about null.
#[derive(Debug, Clone, Copy, PartialEq, Eq, Structural)]
pub enum Nullability {
    Unspecified,
    Nullable,
    NonNull,
}

/// Whether a record is a struct or a union.
#[derive(Debug, Clone, Copy, PartialEq, Eq, Structural)]
pub enum RecordKind {
    Struct,
    Union,
}

/// Whether a record has been defined.
#[derive(Debug, Clone, Copy, PartialEq, Eq, Structural)]
pub enum RecordCompleteness {
    Complete,
    Incomplete,
}

/// What the scanner made of an attribute.
#[derive(Debug, Clone, Copy, PartialEq, Eq, Structural)]
pub enum AttributeDisposition {
    /// The attribute is understood, or bears on nothing here.
    Accepted,
    /// The attribute bears on the ABI and is not understood.
    UnsupportedAbiRelevant,
}

/// An attribute of a declaration or of a field.
#[derive(Debug, Clone, Copy, PartialEq, Eq, Structural)]
pub struct SourceAttribute {
    pub disposition: AttributeDisposition,
}

/// A calling convention, as the lowering to a Rust ABI finds it on the target
/// of the package.
#[derive(Debug, Clone, Copy)]
pub enum CallingConvention {
    /// The convention has a Rust ABI on the target.
    Lowered,
    /// The convention has no Rust ABI on the target.
    Refused { reason: &'static str },
}

/// What a function type says of its parameters.
#[derive(Debug, Clone, Copy, PartialEq, Eq, Structural)]
pub enum FunctionPrototype {
    Prototyped { variadic: bool },
    Unspecified,
}

impl FunctionPrototype {
    /// Whether the parameters are all given.
    pub open spec fn fixed(self) -> bool {
        self == (FunctionPrototype::Prototyped { variadic: false })
    }

    /// Whether the parameters are all given.
    pub fn is_fixed(self) -> (result: bool)
        ensures
            result == self.fixed(),
            result == (self is Prototyped && !self->variadic),
    {
        matches!(self, FunctionPrototype::Prototyped { variadic: false })
    }
}

/// The bound of an array type.
#[derive(Debug, Clone, Copy, PartialEq, Eq, Structural)]
pub enum ArrayBound {
    Fixed { elements: u64 },
    Flexible,
    Incomplete,
    /// A parameter with at least so many elements.
    StaticMinimum,
}

/// A C type.
#[derive(Debug)]
pub struct CType {
    pub qualifiers: TypeQualifiers,
    pub nullability: Nullability,
    pub kind: CTypeKind,
    pub support: SupportStatus,
}

/// The shape of a C type.
#[derive(Debug)]
pub enum CTypeKind {
    Void,
    Bool,
    Integer,
    Floating,
    Complex,
    Pointer(Box<CType>),
    Array { element: Box<CType>, bound: ArrayBound, parameter_qualifiers: TypeQualifiers },
    Function(CFunctionType),
    AliasRef(DeclarationId),
    RecordRef(DeclarationId),
    EnumRef(DeclarationId),
    Unsupported,
}

/// A C function type.
#[derive(Debug)]
pub struct CFunctionType {
    pub calling_convention: CallingConvention,
    pub prototype: FunctionPrototype,
    pub return_type: Box<CType>,
    pub parameters: Vec<CParameter>,
}

/// A parameter of a C function type.
#[derive(Debug)]
pub struct CParameter {
    pub ty: CType,
}

/// A function.
#[derive(Debug)]
pub struct SourceFunction {
    pub calling_convention: CallingConvention,
    pub prototype: FunctionPrototype,
    pub return_type: CType,
    pub parameters: Vec<SourceParameter>,
}

/// A parameter of a function.
#[derive(Debug)]
pub struct SourceParameter {
    pub ordinal: u32,
    pub ty: CType,
}

/// A field of a record.
#[derive(Debug)]
pub struct SourceField {
    pub ty: CType,
    pub bit_width: Option<u32>,
    pub attributes: Vec<SourceAttribute>,
    pub support: SupportStatus,
}

/// A struct or union.
#[derive(Debug)]
pub struct SourceRecord {
    pub kind: RecordKind,
    pub completeness: RecordCompleteness,
    pub fields: Vec<SourceField>,
}

/// Whether the value of an enum variant is known.
#[derive(Debug, Clone, Copy, PartialEq, Eq, Structural)]
pub enum EnumValue {
    Evaluated,
    Unevaluated,
}

/// A variant of an enum.
#[derive(Debug, Clone, Copy, PartialEq, Eq, Structural)]
pub struct SourceEnumVariant {
    pub id: ChildId,
    pub value: EnumValue,
    pub support: SupportStatus,
}

/// An enum.
#[derive(Debug)]
pub struct SourceEnum {
    pub explicit_underlying_type: Option<CType>,
    pub variants: Vec<SourceEnumVariant>,
}

/// A type alias.
#[derive(Debug)]
pub struct SourceTypeAlias {
    pub target: CType,
}

/// A global variable.
#[derive(Debug)]
pub struct SourceVariable {
    pub ty: CType,
    pub thread_local: bool,
}

/// What is declared.
#[derive(Debug)]
pub enum SourceDeclarationKind {
    Function(SourceFunction),
    Record(SourceRecord),
    Enum(SourceEnum),
    TypeAlias(SourceTypeAlias),
    Variable(SourceVariable),
    Unsupported,
}

/// Whether a declaration is visible to the linker.
#[derive(Debug, Clone, Copy, PartialEq, Eq, Structural)]
pub enum Linkage {
    External,
    Internal,
    /// The declaration names nothing that is linked.
    Unlinked,
}

/// One place where a declaration was written.
#[derive(Debug)]
pub struct SourceOccurrence {
    pub id: OccurrenceId,
    pub attributes: Vec<SourceAttribute>,
}

/// A declaration, reconciled from all the places where it was written.
#[derive(Debug)]
pub struct SourceDeclaration {
    pub id: DeclarationId,
    pub linkage: Linkage,
    pub occurrences: Vec<SourceOccurrence>,
    pub support: SupportStatus,
    pub kind: SourceDeclarationKind,
}

/// A scanned source package.
#[derive(Debug)]
pub struct SourcePackage {
    pub fingerprint: SourceFingerprint,
    pub target_fingerprint: TargetFingerprint,
    pub declarations: Vec<SourceDeclaration>,
}

impl SourcePackage {
    /// Whether the declaration at `index` is the first with the identifier `id`.
    pub open spec fn first_at(self, id: DeclarationId, index: int) -> bool {
        &&& 0 <= index < self.declarations@.len()
        &&& self.declarations@[index].id == id
        &&& forall|earlier: int|
            0 <= earlier < index ==> (#[trigger] self.declarations@[earlier]).id != id
    }

    /// The first declaration with the identifier `id`.
    pub open spec fn declared(self, id: DeclarationId) -> Option<SourceDeclaration> {
        if exists|index: int| self.first_at(id, index) {
            Some(self.declarations@[choose|index: int| self.first_at(id, index)])
        } else {
            None
        }
    }

    /// The first declaration with the identifier `id`.
    pub fn declaration(&self, id: DeclarationId) -> (result: Option<&SourceDeclaration>)
        ensures
            match result {
                Some(declaration) => self.declared(id) == Some(*declaration),
                None => self.declared(id) is None,
            },
    {
        for index in 0..self.declarations.len()
            invariant
                forall|earlier: int|
                    0 <= earlier < index ==> (#[trigger] self.declarations@[earlier]).id != id,
        {
            if self.declarations[index].id == id {
                proof {
                    assert(self.first_at(id, index as int));
                    let first = choose|first: int| self.first_at(id, first);
                    assert(self.first_at(id, first));
                    assert(first == index);
                }
                return Some(&self.declarations[index]);
            }
        }
        None
    }
}

/// A source package in which every selected declaration is complete.
#[derive(Debug)]
pub struct CompleteSourcePackage {
    pub package: SourcePackage,
}

impl CompleteSourcePackage {
    /// The package itself.
    pub fn source(&self) -> (result: &SourcePackage)
        ensures
            *result == self.package,
    {
        &self.package
    }
}

} // verus!

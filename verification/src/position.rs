//! Where a type is used.
use vstd::prelude::*;

verus! {

/// The position at which a type is used.
#[derive(Debug, Clone, Copy, PartialEq, Eq, Structural)]
pub enum TypePosition {
    /// Held or passed by value.
    ByValue,
    /// Pointed to.
    BehindPointer,
    /// Returned from a function.
    Return,
    /// A parameter of a C function.
    Parameter,
    /// The target of a type-alias declaration.
    ///
    /// An alias is a name, not a use: `typedef struct T T;` says what `T`
    /// means, and whether a use of `T` is by value is decided at that use.
    AliasTarget,
}

/// The positions at which `void` stands for something.
pub open spec fn admits_void(position: TypePosition) -> bool {
    position is Return || position is BehindPointer
}

/// The positions that only name a record, and so admit an opaque one.
pub open spec fn names_only(position: TypePosition) -> bool {
    position is BehindPointer || position is AliasTarget
}

impl TypePosition {
    /// Whether `void` may stand here.
    pub fn admits_void(self) -> (result: bool)
        ensures
            result == admits_void(self),
            result == (self is Return || self is BehindPointer),
    {
        matches!(self, TypePosition::Return | TypePosition::BehindPointer)
    }

    /// Whether a record is only named here.
    pub fn names_only(self) -> (result: bool)
        ensures
            result == names_only(self),
            result == (self is BehindPointer || self is AliasTarget),
    {
        matches!(self, TypePosition::BehindPointer | TypePosition::AliasTarget)
    }
}

} // verus!

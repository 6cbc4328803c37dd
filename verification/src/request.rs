//! What generation is asked for.
use vstd::prelude::*;

use crate::evidence::ValidatedLinkAnalysis;
use crate::source::{CompleteSourcePackage, DeclarationId};

verus! {

/// How much of a declaration the selection needs.
#[derive(Debug, Clone, Copy, PartialEq, Eq, Structural)]
pub enum ClosureRequirement {
    /// The definition.
    Definition,
    /// The name alone.
    Name,
}

/// A declaration that the selection needs.
#[derive(Debug, Clone, Copy, PartialEq, Eq, Structural)]
pub struct ClosureEntry {
    pub declaration: DeclarationId,
    pub requirement: ClosureRequirement,
}

/// A source package, the evidence gathered for it, and the declarations that
/// the selected items need.
#[derive(Debug)]
pub struct GenerationRequest<'a> {
    pub source: &'a CompleteSourcePackage,
    pub evidence: &'a ValidatedLinkAnalysis,
    pub declaration_closure: Vec<ClosureEntry>,
}

} // verus!

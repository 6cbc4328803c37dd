//! What link analysis found out about the declarations of a source package.
use vstd::prelude::*;

use crate::source::{DeclarationId, SourceFingerprint, TargetFingerprint};

verus! {

/// Identifies a provider of symbols, such as a library.
pub type ProviderId = u64;

/// Which provider defines a declaration.
#[derive(Debug, Clone, Copy, PartialEq, Eq, Structural)]
pub enum ProviderAssessment {
    /// Exactly one provider does.
    Resolved { provider: ProviderId },
    /// None does, or more than one, or it was not looked for.
    Unresolved,
}

/// A symbol of a provider.
#[derive(Debug, Clone, Copy, PartialEq, Eq, Structural)]
pub struct ProviderSymbol {
    pub provider: ProviderId,
}

/// Which symbol stands for a declaration.
#[derive(Debug, Clone, Copy, PartialEq, Eq, Structural)]
pub enum SymbolAssessment {
    /// This one.
    Exact { symbol: ProviderSymbol },
    /// None was found that stands for it exactly.
    Inexact,
}

/// What was found out about one declaration.
#[derive(Debug, Clone, Copy, PartialEq, Eq, Structural)]
pub struct DeclarationEvidence {
    pub declaration: DeclarationId,
    pub source_fingerprint: SourceFingerprint,
    pub target_fingerprint: TargetFingerprint,
    pub provider: ProviderAssessment,
    pub symbol: SymbolAssessment,
}

/// What kind of declaration a layout was measured for.
#[derive(Debug, Clone, Copy, PartialEq, Eq, Structural)]
pub enum LayoutKind {
    Record,
    Enum,
}

/// A measured layout.
#[derive(Debug, Clone, Copy, PartialEq, Eq, Structural)]
pub struct LayoutEvidence {
    pub declaration: DeclarationId,
    pub kind: LayoutKind,
    pub source_fingerprint: SourceFingerprint,
    pub target_fingerprint: TargetFingerprint,
}

/// A file handed to the linker.
#[derive(Debug, Clone, Copy, PartialEq, Eq, Structural)]
pub struct LinkArtifact {
    pub provider_id: ProviderId,
}

/// A step of the link plan.
#[derive(Debug, Clone, Copy, PartialEq, Eq, Structural)]
pub enum LinkAtom {
    Artifact(LinkArtifact),
    /// A step that hands no file to the linker.
    Directive,
}

/// The outcome of a link analysis.
#[derive(Debug)]
pub struct LinkAnalysis {
    pub source_fingerprint: SourceFingerprint,
    pub target_fingerprint: TargetFingerprint,
    pub declaration_evidence: Vec<DeclarationEvidence>,
    pub layouts: Vec<LayoutEvidence>,
    /// The link plan, in link order.
    pub link_plan: Vec<LinkAtom>,
}

/// Whether evidence stands in strictly increasing order of declarations.
pub open spec fn evidence_ordered(entries: Seq<DeclarationEvidence>) -> bool {
    forall|i: int, j: int|
        0 <= i < j < entries.len() ==> (#[trigger] entries[i]).declaration < (
        #[trigger] entries[j]).declaration
}

/// Whether layouts stand in strictly increasing order of declarations.
pub open spec fn layouts_ordered(entries: Seq<LayoutEvidence>) -> bool {
    forall|i: int, j: int|
        0 <= i < j < entries.len() ==> (#[trigger] entries[i]).declaration < (
        #[trigger] entries[j]).declaration
}

impl LinkAnalysis {
    /// Whether evidence and layouts each stand in strictly increasing order of
    /// declarations.
    pub open spec fn ordered(self) -> bool {
        evidence_ordered(self.declaration_evidence@) && layouts_ordered(self.layouts@)
    }

    /// The evidence on `id`.
    pub open spec fn evidence_on(self, id: DeclarationId) -> Option<DeclarationEvidence> {
        if exists|i: int|
            0 <= i < self.declaration_evidence@.len() && (
            #[trigger] self.declaration_evidence@[i]).declaration == id {
            Some(
                self.declaration_evidence@[choose|i: int|
                    0 <= i < self.declaration_evidence@.len() && (
                    #[trigger] self.declaration_evidence@[i]).declaration == id],
            )
        } else {
            None
        }
    }

    /// The layout measured for `id`.
    pub open spec fn layout_of(self, id: DeclarationId) -> Option<LayoutEvidence> {
        if exists|i: int|
            0 <= i < self.layouts@.len() && (#[trigger] self.layouts@[i]).declaration == id {
            Some(
                self.layouts@[choose|i: int|
                    0 <= i < self.layouts@.len() && (#[trigger] self.layouts@[i]).declaration
                        == id],
            )
        } else {
            None
        }
    }

    /// Whether the link plan hands a file of `provider` to the linker.
    pub open spec fn plans(self, provider: ProviderId) -> bool {
        self.link_plan@.contains(LinkAtom::Artifact(LinkArtifact { provider_id: provider }))
    }

    /// Finds the evidence on `id`, by bisection.
    pub fn find_evidence(&self, id: DeclarationId) -> (result: Option<&DeclarationEvidence>)
        requires
            self.ordered(),
        ensures
            match result {
                Some(entry) => self.evidence_on(id) == Some(*entry),
                None => self.evidence_on(id) is None,
            },
    {
        let entries = &self.declaration_evidence;
        let mut low: usize = 0;
        let mut high: usize = entries.len();
        while low < high
            invariant
                *entries == self.declaration_evidence,
                evidence_ordered(entries@),
                low <= high <= entries@.len(),
                forall|i: int| 0 <= i < low ==> (#[trigger] entries@[i]).declaration < id,
                forall|i: int|
                    high <= i < entries@.len() ==> (#[trigger] entries@[i]).declaration > id,
            decreases high - low,
        {
            let middle = low + (high - low) / 2;
            let found = entries[middle].declaration;
            if found == id {
                return Some(&entries[middle]);
            }
            if found < id {
                low = middle + 1;
            } else {
                high = middle;
            }
        }
        None
    }

    /// Finds the layout measured for `id`, by bisection.
    pub fn find_layout(&self, id: DeclarationId) -> (result: Option<&LayoutEvidence>)
        requires
            self.ordered(),
        ensures
            match result {
                Some(entry) => self.layout_of(id) == Some(*entry),
                None => self.layout_of(id) is None,
            },
    {
        let entries = &self.layouts;
        let mut low: usize = 0;
        let mut high: usize = entries.len();
        while low < high
            invariant
                *entries == self.layouts,
                layouts_ordered(entries@),
                low <= high <= entries@.len(),
                forall|i: int| 0 <= i < low ==> (#[trigger] entries@[i]).declaration < id,
                forall|i: int|
                    high <= i < entries@.len() ==> (#[trigger] entries@[i]).declaration > id,
            decreases high - low,
        {
            let middle = low + (high - low) / 2;
            let found = entries[middle].declaration;
            if found == id {
                return Some(&entries[middle]);
            }
            if found < id {
                low = middle + 1;
            } else {
                high = middle;
            }
        }
        None
    }

    /// Whether the link plan hands a file of `provider` to the linker.
    pub fn is_planned(&self, provider: ProviderId) -> (result: bool)
        ensures
            result == self.plans(provider),
    {
        let wanted = LinkAtom::Artifact(LinkArtifact { provider_id: provider });
        for index in 0..self.link_plan.len()
            invariant
                wanted == LinkAtom::Artifact(LinkArtifact { provider_id: provider }),
                forall|earlier: int|
                    0 <= earlier < index ==> #[trigger] self.link_plan@[earlier] != wanted,
        {
            if self.link_plan[index] == wanted {
                return true;
            }
        }
        false
    }
}

/// A link analysis whose evidence and layouts stand in order, each declaration
/// at most once.
#[derive(Debug)]
pub struct ValidatedLinkAnalysis {
    package: LinkAnalysis,
}

impl ValidatedLinkAnalysis {
    /// The analysis.
    pub closed spec fn analysis(self) -> LinkAnalysis {
        self.package
    }

    #[verifier::type_invariant]
    spec fn well_formed(self) -> bool {
        self.package.ordered()
    }

    /// Takes an analysis whose evidence and layouts stand in order, each
    /// declaration at most once.
    pub fn try_new(package: LinkAnalysis) -> (result: Option<ValidatedLinkAnalysis>)
        ensures
            match result {
                Some(validated) => package.ordered() && validated.analysis() == package,
                None => !package.ordered(),
            },
    {
        for index in 0..package.declaration_evidence.len()
            invariant
                forall|i: int, j: int|
                    0 <= i < j < index ==> (
                    #[trigger] package.declaration_evidence@[i]).declaration < (
                    #[trigger] package.declaration_evidence@[j]).declaration,
        {
            if index > 0 && package.declaration_evidence[index - 1].declaration
                >= package.declaration_evidence[index].declaration {
                return None;
            }
        }
        for index in 0..package.layouts.len()
            invariant
                forall|i: int, j: int|
                    0 <= i < j < index ==> (
                    #[trigger] package.layouts@[i]).declaration < (
                    #[trigger] package.layouts@[j]).declaration,
        {
            if index > 0 && package.layouts[index - 1].declaration
                >= package.layouts[index].declaration {
                return None;
            }
        }
        Some(ValidatedLinkAnalysis { package })
    }

    /// The analysis.
    pub fn package(&self) -> (result: &LinkAnalysis)
        ensures
            *result == self.analysis(),
            result.ordered(),
    {
        proof {
            use_type_invariant(self);
        }
        &self.package
    }
}

} // verus!

//! What a refused request is answered.
use vstd::prelude::*;

use crate::source::DeclarationId;

verus! {

/// Why generation refused a request.
#[derive(Debug)]
pub enum GenerationError {
    /// The evidence was gathered for another source package.
    SourceFingerprintMismatch,
    /// The evidence was gathered for another target.
    TargetFingerprintMismatch,
    /// A selected declaration is absent from the source package.
    MissingDeclaration { declaration: DeclarationId },
    /// No link evidence names a selected declaration.
    MissingDeclarationEvidence { declaration: DeclarationId },
    /// No layout was measured for a record or an enum.
    MissingLayoutEvidence { declaration: DeclarationId },
    /// A measured layout does not belong to the declaration it names.
    LayoutMismatch { declaration: DeclarationId, reason: &'static str },
    /// A declaration lies outside the certified ABI.
    UnsupportedDeclaration { declaration: DeclarationId, reason: &'static str },
    /// A type, reached from `declaration` along `path`, lies outside the
    /// certified ABI.
    UnsupportedType { declaration: DeclarationId, path: String, reason: &'static str },
    /// The lowered projection breaks a rule that lowering owes.
    ProjectionInvariant { reason: &'static str },
}

/// What generation returns.
pub type GenerationResult<T> = Result<T, GenerationError>;

/// The mathematical content of a [`GenerationError`]: texts are sequences of
/// characters.
pub enum Refusal {
    SourceFingerprintMismatch,
    TargetFingerprintMismatch,
    MissingDeclaration { declaration: DeclarationId },
    MissingDeclarationEvidence { declaration: DeclarationId },
    MissingLayoutEvidence { declaration: DeclarationId },
    LayoutMismatch { declaration: DeclarationId, reason: Seq<char> },
    UnsupportedDeclaration { declaration: DeclarationId, reason: Seq<char> },
    UnsupportedType { declaration: DeclarationId, path: Seq<char>, reason: Seq<char> },
    ProjectionInvariant { reason: Seq<char> },
}

/// The mathematical content of a check's result.
pub type Verdict = Result<(), Refusal>;

impl View for GenerationError {
    type V = Refusal;

    open spec fn view(&self) -> Refusal {
        match *self {
            GenerationError::SourceFingerprintMismatch => Refusal::SourceFingerprintMismatch,
            GenerationError::TargetFingerprintMismatch => Refusal::TargetFingerprintMismatch,
            GenerationError::MissingDeclaration { declaration } => Refusal::MissingDeclaration {
                declaration,
            },
            GenerationError::MissingDeclarationEvidence { declaration } =>
                Refusal::MissingDeclarationEvidence { declaration },
            GenerationError::MissingLayoutEvidence { declaration } =>
                Refusal::MissingLayoutEvidence { declaration },
            GenerationError::LayoutMismatch { declaration, reason } => Refusal::LayoutMismatch {
                declaration,
                reason: reason@,
            },
            GenerationError::UnsupportedDeclaration { declaration, reason } =>
                Refusal::UnsupportedDeclaration { declaration, reason: reason@ },
            GenerationError::UnsupportedType { declaration, path, reason } =>
                Refusal::UnsupportedType { declaration, path: path@, reason: reason@ },
            GenerationError::ProjectionInvariant { reason } => Refusal::ProjectionInvariant {
                reason: reason@,
            },
        }
    }
}

/// The verdict that a result carries.
pub open spec fn verdict_of<T>(result: GenerationResult<T>) -> Verdict {
    match result {
        Ok(_) => Ok(()),
        Err(error) => Err(error@),
    }
}

/// The text of the broken rule that a refusal carries, if it carries one.
pub open spec fn reason_of(refusal: Refusal) -> Option<Seq<char>> {
    match refusal {
        Refusal::LayoutMismatch { reason, .. } => Some(reason),
        Refusal::UnsupportedDeclaration { reason, .. } => Some(reason),
        Refusal::UnsupportedType { reason, .. } => Some(reason),
        Refusal::ProjectionInvariant { reason } => Some(reason),
        _ => None,
    }
}

impl GenerationError {
    /// The text of the broken rule, for the errors that carry one.
    pub fn reason(&self) -> (result: Option<&'static str>)
        ensures
            match result {
                Some(text) => reason_of(self@) == Some(text@),
                None => reason_of(self@) is None,
            },
    {
        match self {
            GenerationError::LayoutMismatch { reason, .. } => Some(*reason),
            GenerationError::UnsupportedDeclaration { reason, .. } => Some(*reason),
            GenerationError::UnsupportedType { reason, .. } => Some(*reason),
            GenerationError::ProjectionInvariant { reason } => Some(*reason),
            _ => None,
        }
    }
}

/// The refusal of a projection that breaks the rule `reason`.
pub open spec fn projection_refusal(reason: Seq<char>) -> Verdict {
    Err(Refusal::ProjectionInvariant { reason })
}

/// Refuses a projection that breaks the rule `reason`.
pub fn projection_invariant<T>(reason: &'static str) -> (result: GenerationResult<T>)
    ensures
        result is Err,
        verdict_of(result) == projection_refusal(reason@),
{
    Err(GenerationError::ProjectionInvariant { reason })
}

/// The view of an error keeps its kind and all that it carries.
pub proof fn law_view_keeps_everything(error: GenerationError)
    ensures
        error is SourceFingerprintMismatch <==> error@ is SourceFingerprintMismatch,
        error is TargetFingerprintMismatch <==> error@ is TargetFingerprintMismatch,
        error matches GenerationError::MissingDeclaration { declaration: id } ==> error@
            == (Refusal::MissingDeclaration { declaration: id }),
        error matches GenerationError::MissingDeclarationEvidence { declaration: id } ==> error@
            == (Refusal::MissingDeclarationEvidence { declaration: id }),
        error matches GenerationError::MissingLayoutEvidence { declaration: id } ==> error@
            == (Refusal::MissingLayoutEvidence { declaration: id }),
        error matches GenerationError::LayoutMismatch { declaration: id, reason: text } ==> error@
            == (Refusal::LayoutMismatch { declaration: id, reason: text@ }),
        error matches GenerationError::UnsupportedDeclaration { declaration: id, reason: text }
            ==> error@ == (Refusal::UnsupportedDeclaration { declaration: id, reason: text@ }),
        error matches GenerationError::UnsupportedType { declaration: id, path: at, reason: text }
            ==> error@ == (Refusal::UnsupportedType {
            declaration: id,
            path: at@,
            reason: text@,
        }),
        error matches GenerationError::ProjectionInvariant { reason: text } ==> error@
            == (Refusal::ProjectionInvariant { reason: text@ }),
{
}

/// A result carries the verdict that its kind says, and an error carries its
/// own refusal.
pub proof fn law_verdict_follows_result<T>(result: GenerationResult<T>)
    ensures
        result is Ok ==> verdict_of(result) == Verdict::Ok(()),
        result matches Err(error) ==> verdict_of(result) == Verdict::Err(error@),
{
}

/// An error has a reason exactly if it carries a text, and the reason is that
/// text.
pub proof fn law_reason_is_the_text(error: GenerationError)
    ensures
        error matches GenerationError::LayoutMismatch { reason: text, .. } ==> reason_of(error@)
            == Some(text@),
        error matches GenerationError::UnsupportedDeclaration { reason: text, .. } ==> reason_of(
            error@,
        ) == Some(text@),
        error matches GenerationError::UnsupportedType { reason: text, .. } ==> reason_of(error@)
            == Some(text@),
        error matches GenerationError::ProjectionInvariant { reason: text } ==> reason_of(error@)
            == Some(text@),
        error is SourceFingerprintMismatch || error is TargetFingerprintMismatch
            || error is MissingDeclaration || error is MissingDeclarationEvidence
            || error is MissingLayoutEvidence ==> reason_of(error@) is None,
{
}

} // verus!

//! How the pass answers for declarations, for a selection of them, and for a
//! request.
use vstd::prelude::*;

use crate::error::{Refusal, Verdict};
use crate::evidence::{LinkAnalysis, LinkArtifact, LinkAtom, ProviderAssessment, SymbolAssessment};
use crate::lookup_laws::{
    declares, declares_nothing, law_absent_declaration_is_not_found, law_evidence_is_found,
    law_first_declaration_is_found, strictly_increasing,
};
use crate::position::TypePosition;
use crate::refusal_laws::{declaration_refused, type_refused};
use crate::request::ClosureEntry;
use crate::request_laws::{
    law_request_accepted, law_world_accepted, lemma_occurrences, lemma_parameters, lemma_variants,
    occurrences_admitted, requested_world, roots, variants_admitted,
};
use crate::source::{
    CTypeKind, CallingConvention, DeclarationId, FunctionPrototype, SourceDeclaration,
    SourceDeclarationKind, SourceEnum, SourceFunction, SourcePackage,
};
use crate::source_laws::{accepted_at, all_understood, is_walk, merely_named, SourceUse};
use crate::source_rules::{
    admission_verdict, binding_verdict, body_verdict, declaration_outcome, evidence_verdict,
    first_refusal, layout_verdict, least_refused, lemma_occurrences_refused,
    lemma_parameters_refused, lemma_variants_refused, occurrences_verdict, parameters_outcome,
    reconciled_verdict, record_outcome, request_verdict, type_outcome, variants_verdict,
    world_verdict, ClosedWorld, Outcome,
};
use crate::text::indexed;

verus! {

/// A function is refused for its calling convention, then if its parameters are
/// not all given. It is else answered as its return type if that is refused,
/// then as the first of its parameters that is, located by its ordinal, and is
/// accepted if none is.
pub proof fn law_functions(
    w: ClosedWorld,
    declaration: SourceDeclaration,
    function: SourceFunction,
    aliases: Seq<DeclarationId>,
    records: Seq<DeclarationId>,
    index: int,
)
    requires
        w.selected().finite(),
        declaration.kind == SourceDeclarationKind::Function(function),
    ensures
        ({
            let outcome = declaration_outcome(w, declaration, aliases, records);
            let given = function.prototype == (FunctionPrototype::Prototyped { variadic: false });
            let returned = type_outcome(
                w,
                declaration.id,
                "function.return_type"@,
                function.return_type,
                TypePosition::Return,
                aliases,
                records,
            );
            let parameter = |i: int|
                type_outcome(
                    w,
                    declaration.id,
                    indexed(
                        "function"@,
                        ".parameters"@,
                        function.parameters@[i].ordinal as nat,
                    ),
                    function.parameters@[i].ty,
                    TypePosition::Parameter,
                    aliases,
                    records,
                );
            &&& function.calling_convention matches CallingConvention::Refused { reason }
                ==> outcome == declaration_refused(declaration.id, reason@)
            &&& function.calling_convention is Lowered && !given ==> outcome == declaration_refused(
                declaration.id,
                "variadic or unspecified function prototypes are outside the certified ABI"@,
            )
            &&& function.calling_convention is Lowered && given ==> {
                &&& returned is Refused ==> outcome == returned
                &&& returned is Accepted && 0 <= index < function.parameters@.len() && parameter(
                    index,
                ) is Refused && (forall|i: int|
                    0 <= i < index ==> #[trigger] parameter(i) is Accepted) ==> outcome
                    == parameter(index)
                &&& returned is Accepted && (forall|i: int|
                    0 <= i < function.parameters@.len() ==> #[trigger] parameter(i) is Accepted)
                    ==> outcome is Accepted
            }
        }),
{
    let id = declaration.id;
    let parameters = function.parameters@;
    let parameter = |i: int|
        type_outcome(
            w,
            id,
            indexed("function"@, ".parameters"@, parameters[i].ordinal as nat),
            parameters[i].ty,
            TypePosition::Parameter,
            aliases,
            records,
        );
    if forall|i: int| 0 <= i < parameters.len() ==> #[trigger] parameter(i) is Accepted {
        assert forall|i: int| 0 <= i < parameters.len() implies accepted_at(
            w,
            id,
            indexed("function"@, ".parameters"@, (#[trigger] parameters[i]).ordinal as nat),
            SourceUse { ty: parameters[i].ty, position: TypePosition::Parameter },
            aliases,
            records,
        ) by {
            assert(parameter(i) is Accepted);
        }
        lemma_parameters(w, id, parameters, parameters.len(), aliases, records);
    }
    if 0 <= index < parameters.len() && parameter(index) is Refused && forall|i: int|
        0 <= i < index ==> #[trigger] parameter(i) is Accepted {
        assert forall|i: int| 0 <= i < index implies accepted_at(
            w,
            id,
            indexed("function"@, ".parameters"@, (#[trigger] parameters[i]).ordinal as nat),
            SourceUse { ty: parameters[i].ty, position: TypePosition::Parameter },
            aliases,
            records,
        ) by {
            assert(parameter(i) is Accepted);
        }
        lemma_parameters(w, id, parameters, index as nat, aliases, records);
        let next = (index + 1) as nat;
        assert(parameters_outcome(w, id, parameters, next, aliases, records) == parameter(index));
        lemma_parameters_refused(w, id, parameters, next, parameters.len(), aliases, records);
    }
}

/// An enum is answered as its layout if that is refused, then as its underlying
/// type. It is else refused for the first variant that repeats or is not
/// understood, or whose value is not known, and is accepted if none is so.
pub proof fn law_enums(
    w: ClosedWorld,
    declaration: SourceDeclaration,
    enumeration: SourceEnum,
    aliases: Seq<DeclarationId>,
    records: Seq<DeclarationId>,
    index: int,
)
    requires
        w.selected().finite(),
        declaration.kind == SourceDeclarationKind::Enum(enumeration),
    ensures
        ({
            let id = declaration.id;
            let outcome = declaration_outcome(w, declaration, aliases, records);
            let layout = layout_verdict(w, id, false);
            let underlying = match enumeration.explicit_underlying_type {
                Some(ty) => type_outcome(
                    w,
                    id,
                    "enum.explicit_underlying_type"@,
                    ty,
                    TypePosition::ByValue,
                    aliases,
                    records,
                ),
                None => Outcome::Accepted,
            };
            let variants = enumeration.variants@;
            let repeated = exists|i: int|
                0 <= i < index && (#[trigger] variants[i]).id == variants[index].id;
            &&& layout matches Err(refusal) ==> outcome == (Outcome::Refused {
                refusal,
                left_open: seq![],
            })
            &&& layout is Ok && underlying is Refused ==> outcome == underlying
            &&& layout is Ok && underlying is Accepted ==> {
                &&& variants_admitted(variants, variants.len()) ==> outcome is Accepted
                &&& 0 <= index < variants.len() && variants_admitted(variants, index as nat) && (
                repeated || !(variants[index].support is Supported)) ==> outcome
                    == declaration_refused(
                    id,
                    "enum variants must be distinct and fully supported"@,
                )
                &&& 0 <= index < variants.len() && variants_admitted(variants, index as nat)
                    && !repeated && variants[index].support is Supported && variants[index].value
                    is Unevaluated ==> outcome == declaration_refused(
                    id,
                    "enum values must be evaluated exactly"@,
                )
            }
        }),
{
    let id = declaration.id;
    let variants = enumeration.variants@;
    lemma_variants(id, variants, variants.len());
    if 0 <= index < variants.len() && variants_admitted(variants, index as nat) {
        lemma_variants(id, variants, index as nat);
        let next = (index + 1) as nat;
        if variants_verdict(id, variants, next) is Err {
            lemma_variants_refused(id, variants, next, variants.len());
        }
    }
}

/// A record is answered as a record by value if its definition is needed and is
/// accepted if its name is. A type alias is answered as its target, which it
/// names. A variable is refused if it is thread-local and is else answered as
/// its type, by value. What the scanner did not understand is refused.
pub proof fn law_other_declarations(
    w: ClosedWorld,
    declaration: SourceDeclaration,
    aliases: Seq<DeclarationId>,
    records: Seq<DeclarationId>,
)
    requires
        w.selected().finite(),
    ensures
        ({
            let id = declaration.id;
            let outcome = declaration_outcome(w, declaration, aliases, records);
            match declaration.kind {
                SourceDeclarationKind::Record(record) => {
                    &&& !w.requirements.contains_key(id) ==> outcome == type_refused(
                        id,
                        "declaration_graph"@,
                        "declaration requirement is absent from the selected closed world"@,
                    )
                    &&& w.requirements.contains_key(id) && w.requirements[id] is Name ==> outcome
                        is Accepted
                    &&& w.requirements.contains_key(id) && w.requirements[id] is Definition
                        ==> outcome == record_outcome(w, id, record, aliases, records)
                },
                SourceDeclarationKind::TypeAlias(alias) => {
                    &&& aliases.contains(id) ==> outcome == type_refused(
                        id,
                        "alias_graph"@,
                        "type-alias cycle detected"@,
                    )
                    &&& !aliases.contains(id) ==> outcome == type_outcome(
                        w,
                        id,
                        "type_alias.target"@,
                        alias.target,
                        TypePosition::AliasTarget,
                        aliases.push(id),
                        records,
                    )
                },
                SourceDeclarationKind::Variable(variable) => {
                    &&& variable.thread_local ==> outcome == declaration_refused(
                        id,
                        "thread-local globals are explicitly rejected"@,
                    )
                    &&& !variable.thread_local ==> outcome == type_outcome(
                        w,
                        id,
                        "variable.type"@,
                        variable.ty,
                        TypePosition::ByValue,
                        aliases,
                        records,
                    )
                },
                SourceDeclarationKind::Unsupported => outcome == declaration_refused(
                    id,
                    "unsupported source declaration entered the strict closure"@,
                ),
                SourceDeclarationKind::Function(_) | SourceDeclarationKind::Enum(_) => true,
            }
        }),
{
}

/// A declaration is refused if it is not understood, and then for the first
/// place where it was written that repeats, or that carries an attribute which
/// bears on the ABI and is not understood.
pub proof fn law_reconciliation(declaration: SourceDeclaration, index: int)
    ensures
        ({
            let verdict = reconciled_verdict(declaration);
            let refused = |reason: Seq<char>|
                Verdict::Err(
                    Refusal::UnsupportedDeclaration { declaration: declaration.id, reason },
                );
            let places = declaration.occurrences@;
            let repeated = exists|i: int|
                0 <= i < index && (#[trigger] places[i]).id == places[index].id;
            let bears = exists|i: int|
                0 <= i < places[index].attributes@.len() && (
                #[trigger] places[index].attributes@[i]).disposition is UnsupportedAbiRelevant;
            let first = 0 <= index < places.len() && occurrences_admitted(places, index as nat);
            &&& !(declaration.support is Supported) ==> verdict == refused(
                "PARC source support is not fully accepted"@,
            )
            &&& declaration.support is Supported && first && repeated ==> verdict == refused(
                "reconciled declaration repeats a source occurrence"@,
            )
            &&& declaration.support is Supported && first && !repeated && bears ==> verdict
                == refused("an ABI-relevant declaration attribute is unsupported"@)
            &&& declaration.support is Supported && occurrences_admitted(places, places.len())
                ==> verdict == Verdict::Ok(())
        }),
{
    let id = declaration.id;
    let places = declaration.occurrences@;
    lemma_occurrences(id, places, places.len());
    if 0 <= index < places.len() && occurrences_admitted(places, index as nat) {
        lemma_occurrences(id, places, index as nat);
        let next = (index + 1) as nat;
        if occurrences_verdict(id, places, next) is Err {
            lemma_occurrences_refused(id, places, next, places.len());
        }
    }
}

/// Evidence is missing exactly if none names the declaration.
pub proof fn law_missing_evidence(w: ClosedWorld, declaration: SourceDeclaration)
    ensures
        evidence_verdict(w, declaration) == Verdict::Err(
            Refusal::MissingDeclarationEvidence { declaration: declaration.id },
        ) <==> forall|i: int|
            0 <= i < w.evidence.declaration_evidence@.len() ==> (
            #[trigger] w.evidence.declaration_evidence@[i]).declaration != declaration.id,
{
}

/// Evidence is refused if it was gathered for another source, then if for
/// another target. Of a function or a variable that the linker has to find it
/// is then refused if no one provider was resolved, then if no exact symbol of
/// that provider was, then if no step of the link plan hands over a file of it.
pub proof fn law_evidence(w: ClosedWorld, declaration: SourceDeclaration, index: int)
    requires
        strictly_increasing(w.evidence),
        0 <= index < w.evidence.declaration_evidence@.len(),
        w.evidence.declaration_evidence@[index].declaration == declaration.id,
    ensures
        ({
            let verdict = evidence_verdict(w, declaration);
            let refused = |reason: Seq<char>|
                Verdict::Err(
                    Refusal::UnsupportedDeclaration { declaration: declaration.id, reason },
                );
            let entry = w.evidence.declaration_evidence@[index];
            let same_source = entry.source_fingerprint == w.source.fingerprint;
            let same_target = entry.target_fingerprint == w.source.target_fingerprint;
            let sought = (declaration.kind is Function || declaration.kind is Variable)
                && declaration.linkage is External;
            &&& !same_source ==> verdict == Verdict::Err(Refusal::SourceFingerprintMismatch)
            &&& same_source && !same_target ==> verdict == Verdict::Err(
                Refusal::TargetFingerprintMismatch,
            )
            &&& same_source && same_target && !sought ==> verdict == Verdict::Ok(())
            &&& same_source && same_target && sought ==> match entry.provider {
                ProviderAssessment::Unresolved => verdict == refused(
                    "selected extern has no single resolved provider"@,
                ),
                ProviderAssessment::Resolved { provider } => {
                    let exact = entry.symbol is Exact && entry.symbol->symbol.provider == provider;
                    let planned = exists|i: int|
                        0 <= i < w.evidence.link_plan@.len() && #[trigger] w.evidence.link_plan@[i]
                            == LinkAtom::Artifact(LinkArtifact { provider_id: provider });
                    &&& !exact ==> verdict == refused(
                        "selected extern has no exact provider-bound symbol"@,
                    )
                    &&& exact && !planned ==> verdict == refused(
                        "selected extern provider is absent from the ordered link plan"@,
                    )
                    &&& exact && planned ==> verdict == Verdict::Ok(())
                },
            }
        }),
{
    law_evidence_is_found(w.evidence, index);
}

/// A selected declaration that is not declared is missing. One that is declared
/// is answered as it was reconciled if that is refused and else as its
/// evidence; and, once admitted, as what it declares, with nothing open.
pub proof fn law_selected_declarations(w: ClosedWorld, id: DeclarationId, index: int)
    requires
        w.requirements.contains_key(id),
    ensures
        declares_nothing(w.source, id) ==> admission_verdict(w, id) == Verdict::Err(
            Refusal::MissingDeclaration { declaration: id },
        ),
        declares(w.source, id, index) ==> {
            let declaration = w.source.declarations@[index];
            let reconciled = reconciled_verdict(declaration);
            &&& reconciled is Err ==> admission_verdict(w, id) == reconciled
            &&& reconciled is Ok ==> admission_verdict(w, id) == evidence_verdict(w, declaration)
            &&& body_verdict(w, id) == declaration_outcome(
                w,
                declaration,
                seq![],
                seq![],
            ).verdict()
        },
{
    law_absent_declaration_is_not_found(w.source, id);
    if declares(w.source, id, index) {
        law_first_declaration_is_found(w.source, id, index);
    }
}

/// Where all that are less pass and `id` does not, `id` decides.
proof fn lemma_decides(
    ids: Set<DeclarationId>,
    verdict: spec_fn(DeclarationId) -> Verdict,
    id: DeclarationId,
)
    requires
        ids.contains(id),
        verdict(id) is Err,
        forall|lesser: DeclarationId| #[trigger]
            ids.contains(lesser) && lesser < id ==> verdict(lesser) is Ok,
    ensures
        first_refusal(ids, verdict) == verdict(id),
{
    assert(least_refused(ids, verdict, id));
    let least = choose|least: DeclarationId| least_refused(ids, verdict, least);
    assert(least_refused(ids, verdict, least));
    assert(least == id);
}

/// A selection is answered as the least declaration that is not admitted; if
/// all are admitted, as the least whose types are refused; and is accepted if
/// there is none.
pub proof fn law_least_declaration_decides(w: ClosedWorld, id: DeclarationId)
    requires
        w.selected().finite(),
    ensures
        ({
            let all_admitted = forall|other: DeclarationId| #[trigger]
                w.requirements.contains_key(other) ==> admission_verdict(w, other) is Ok;
            &&& w.requirements.contains_key(id) && admission_verdict(w, id) is Err && (forall|
                lesser: DeclarationId,
            | #[trigger]
                w.requirements.contains_key(lesser) && lesser < id ==> admission_verdict(w, lesser)
                    is Ok) ==> world_verdict(w) == admission_verdict(w, id)
            &&& all_admitted && w.requirements.contains_key(id) && body_verdict(w, id) is Err && (
            forall|lesser: DeclarationId| #[trigger]
                w.requirements.contains_key(lesser) && lesser < id ==> body_verdict(w, lesser)
                    is Ok) ==> world_verdict(w) == body_verdict(w, id)
            &&& all_admitted && (forall|other: DeclarationId| #[trigger]
                w.requirements.contains_key(other) ==> body_verdict(w, other) is Ok)
                ==> world_verdict(w) == Verdict::Ok(())
        }),
{
    let ids = w.selected();
    let admission = |other: DeclarationId| admission_verdict(w, other);
    let body = |other: DeclarationId| body_verdict(w, other);
    assert forall|other: DeclarationId| #[trigger] ids.contains(other)
        <==> w.requirements.contains_key(other) by {}
    if w.requirements.contains_key(id) && admission_verdict(w, id) is Err && forall|
        lesser: DeclarationId,
    | #[trigger]
        w.requirements.contains_key(lesser) && lesser < id ==> admission_verdict(w, lesser) is Ok {
        lemma_decides(ids, admission, id);
    }
    if forall|other: DeclarationId| #[trigger]
        w.requirements.contains_key(other) ==> admission_verdict(w, other) is Ok {
        assert forall|other: DeclarationId| !least_refused(ids, admission, other) by {}
        assert(first_refusal(ids, admission) == Verdict::Ok(()));
        if w.requirements.contains_key(id) && body_verdict(w, id) is Err && forall|
            lesser: DeclarationId,
        | #[trigger]
            w.requirements.contains_key(lesser) && lesser < id ==> body_verdict(w, lesser) is Ok {
            lemma_decides(ids, body, id);
        }
        if forall|other: DeclarationId| #[trigger]
            w.requirements.contains_key(other) ==> body_verdict(w, other) is Ok {
            assert forall|other: DeclarationId| !least_refused(ids, body, other) by {}
        }
    }
}

/// Evidence is bound to a source exactly if it was gathered for it and for its
/// target, and a request with such evidence is answered as its selection.
pub proof fn law_bound_requests(
    source: SourcePackage,
    evidence: LinkAnalysis,
    closure: Seq<ClosureEntry>,
)
    ensures
        evidence.source_fingerprint != source.fingerprint ==> binding_verdict(source, evidence)
            == Verdict::Err(Refusal::SourceFingerprintMismatch),
        evidence.source_fingerprint == source.fingerprint && evidence.target_fingerprint
            != source.target_fingerprint ==> binding_verdict(source, evidence) == Verdict::Err(
            Refusal::TargetFingerprintMismatch,
        ),
        evidence.source_fingerprint == source.fingerprint && evidence.target_fingerprint
            == source.target_fingerprint ==> binding_verdict(source, evidence) == Verdict::Ok(())
            && request_verdict(source, evidence, closure) == world_verdict(
            requested_world(source, evidence, closure),
        ),
{
}

/// In an accepted request every selected function, and every selected variable,
/// with external linkage has evidence with a resolved provider, an exact symbol
/// of that provider, and a step of the link plan that hands over a file of it.
pub proof fn law_externs_are_linked(
    source: SourcePackage,
    evidence: LinkAnalysis,
    closure: Seq<ClosureEntry>,
    entry: int,
    index: int,
)
    requires
        request_verdict(source, evidence, closure) is Ok,
        0 <= entry < closure.len(),
        declares(source, closure[entry].declaration, index),
        source.declarations@[index].linkage is External,
        source.declarations@[index].kind is Function || source.declarations@[index].kind
            is Variable,
    ensures
        exists|found: int, step: int|
            {
                &&& 0 <= found < evidence.declaration_evidence@.len()
                &&& 0 <= step < evidence.link_plan@.len()
                &&& (#[trigger] evidence.declaration_evidence@[found]).declaration
                    == closure[entry].declaration
                &&& evidence.declaration_evidence@[found].provider matches
                    ProviderAssessment::Resolved { provider }
                &&& evidence.declaration_evidence@[found].symbol matches SymbolAssessment::Exact {
                    symbol,
                }
                &&& symbol.provider == provider
                &&& #[trigger] evidence.link_plan@[step] == LinkAtom::Artifact(
                    LinkArtifact { provider_id: provider },
                )
            },
{
    let id = closure[entry].declaration;
    law_request_accepted(source, evidence, closure);
    law_first_declaration_is_found(source, id, index);
    let found = choose|found: int|
        0 <= found < evidence.declaration_evidence@.len() && (
        #[trigger] evidence.declaration_evidence@[found]).declaration == id;
    let step = choose|step: int|
        0 <= step < evidence.link_plan@.len() && #[trigger] evidence.link_plan@[step]
            == LinkAtom::Artifact(
            LinkArtifact { provider_id: evidence.evidence_on(id)->0.provider->provider },
        );
    assert(evidence.evidence_on(id) == Some(evidence.declaration_evidence@[found]));
    assert(evidence.link_plan@[step] == evidence.link_plan@[step]);
}

/// In an accepted request no attribute of any place where a selected
/// declaration was written bears on the ABI without being understood, and no
/// two of these places are the same.
pub proof fn law_occurrences_are_understood(
    source: SourcePackage,
    evidence: LinkAnalysis,
    closure: Seq<ClosureEntry>,
    entry: int,
    index: int,
    place: int,
    attribute: int,
)
    requires
        request_verdict(source, evidence, closure) is Ok,
        0 <= entry < closure.len(),
        declares(source, closure[entry].declaration, index),
        0 <= place < source.declarations@[index].occurrences@.len(),
    ensures
        source.declarations@[index].support is Supported,
        0 <= attribute < source.declarations@[index].occurrences@[place].attributes@.len() ==> !(
        source.declarations@[index].occurrences@[place].attributes@[attribute].disposition
            is UnsupportedAbiRelevant),
        forall|other: int|
            0 <= other < source.declarations@[index].occurrences@.len() && other != place ==> (
            #[trigger] source.declarations@[index].occurrences@[other]).id
                != source.declarations@[index].occurrences@[place].id,
{
    law_request_accepted(source, evidence, closure);
    law_first_declaration_is_found(source, closure[entry].declaration, index);
    let places = source.declarations@[index].occurrences@;
    assert(all_understood(places[place].attributes@));
    assert forall|other: int| 0 <= other < places.len() && other != place implies (
    #[trigger] places[other]).id != places[place].id by {}
}

/// In an accepted selection no field of a record that a walk from a selected
/// declaration meets by value is a bitfield or carries, at any place, an
/// attribute that bears on the ABI without being understood.
pub proof fn law_fields_are_understood(
    w: ClosedWorld,
    id: DeclarationId,
    walk: Seq<SourceUse>,
    target: DeclarationId,
    index: int,
    field: int,
    attribute: int,
)
    requires
        w.selected().finite(),
        world_verdict(w) is Ok,
        w.requirements.contains_key(id),
        is_walk(w, walk),
        roots(w, w.source.declared(id)->0).contains(walk[0]),
        walk.last().ty.kind == CTypeKind::RecordRef(target),
        !merely_named(walk.last().position),
        declares(w.source, target, index),
        w.source.declarations@[index].kind is Record,
        0 <= field < w.source.declarations@[index].kind->Record_0.fields@.len(),
    ensures
        ({
            let held = w.source.declarations@[index].kind->Record_0.fields@[field];
            &&& held.support is Supported
            &&& held.bit_width is None
            &&& 0 <= attribute < held.attributes@.len() ==> !(
            held.attributes@[attribute].disposition is UnsupportedAbiRelevant)
        }),
{
    law_world_accepted(w);
    law_first_declaration_is_found(w.source, target, index);
    assert(w.selected().contains(id));
    let record = w.source.declarations@[index].kind->Record_0;
    assert(w.record(target) == Some(record));
    assert(record.fields@[field] == record.fields@[field]);
}

/// In an accepted selection no field of a selected record whose definition is
/// needed is a bitfield or carries, at any place, an attribute that bears on
/// the ABI without being understood.
pub proof fn law_fields_of_selected_records(
    w: ClosedWorld,
    id: DeclarationId,
    index: int,
    field: int,
    attribute: int,
)
    requires
        w.selected().finite(),
        world_verdict(w) is Ok,
        w.requirements.contains_key(id),
        w.requirements[id] is Definition,
        declares(w.source, id, index),
        w.source.declarations@[index].kind is Record,
        0 <= field < w.source.declarations@[index].kind->Record_0.fields@.len(),
    ensures
        ({
            let held = w.source.declarations@[index].kind->Record_0.fields@[field];
            &&& held.support is Supported
            &&& held.bit_width is None
            &&& 0 <= attribute < held.attributes@.len() ==> !(
            held.attributes@[attribute].disposition is UnsupportedAbiRelevant)
        }),
{
    law_world_accepted(w);
    law_first_declaration_is_found(w.source, id, index);
    assert(w.selected().contains(id));
    let record = w.source.declarations@[index].kind->Record_0;
    assert(record.fields@[field] == record.fields@[field]);
}

} // verus!

//! What holds of every generation request that the pass accepts, and of every
//! one that it refuses: a request is accepted if every selected declaration is
//! admitted and every use of a type that can be reached from it is.
use vstd::prelude::*;

use crate::error::{Refusal, Verdict};
use crate::evidence::{LinkAnalysis, LinkArtifact, LinkAtom, ProviderAssessment, SymbolAssessment};
use crate::position::TypePosition;
use crate::request::ClosureEntry;
use crate::source::{
    CParameter, CType, CTypeKind, DeclarationId, SourceDeclaration, SourceDeclarationKind,
    SourceEnumVariant, SourceOccurrence, SourcePackage, SourceParameter, SourceRecord,
};
use crate::source_laws::{
    accepted_at, aliases_along, all_understood, ends_well, field_uses, is_walk,
    law_nothing_is_opened_twice, law_type_accepted, layout_current, lemma_record_parts,
    merely_named, record_admitted, records_along, SourceUse,
};
use crate::source_rules::{
    admission_verdict, body_verdict, callback_parameters_outcome, closure_map, declaration_outcome,
    element_position, first_refusal, least_refused, occurrences_verdict, parameters_outcome,
    record_entry_verdict, record_fields_outcome, record_outcome, request_verdict, type_outcome,
    unopened, use_verdict, variants_verdict, world_verdict, ClosedWorld,
};
use crate::stack::{fresh, lemma_unvisited_push};
use crate::text::indexed;

verus! {

/// The world that a request selects.
pub open spec fn requested_world(
    source: SourcePackage,
    evidence: LinkAnalysis,
    closure: Seq<ClosureEntry>,
) -> ClosedWorld {
    ClosedWorld { source, evidence, requirements: closure_map(closure, closure.len()) }
}

/// A request selects finitely many declarations: those that its closure names.
pub proof fn lemma_closure_map(entries: Seq<ClosureEntry>, count: nat)
    requires
        count <= entries.len(),
    ensures
        closure_map(entries, count).dom().finite(),
        forall|id: DeclarationId| #[trigger]
            closure_map(entries, count).contains_key(id) <==> exists|i: int|
                0 <= i < count && (#[trigger] entries[i]).declaration == id,
    decreases count,
{
    if count > 0 {
        let shorter = (count - 1) as nat;
        lemma_closure_map(entries, shorter);
        let last = entries[count - 1].declaration;
        assert forall|id: DeclarationId| #[trigger]
            closure_map(entries, count).contains_key(id) implies exists|i: int|
            0 <= i < count && (#[trigger] entries[i]).declaration == id by {
            if id == last {
                assert(entries[count - 1].declaration == id);
            } else {
                assert(closure_map(entries, shorter).contains_key(id));
            }
        }
    }
}

/// Whether the places where a declaration was written are distinct and carry no
/// attribute that bears on the ABI and is not understood.
pub open spec fn occurrences_admitted(occurrences: Seq<SourceOccurrence>, count: nat) -> bool {
    &&& forall|i: int, j: int|
        0 <= i < j < count ==> (#[trigger] occurrences[i]).id != (#[trigger] occurrences[j]).id
    &&& forall|i: int|
        0 <= i < count ==> all_understood((#[trigger] occurrences[i]).attributes@)
}

/// The first occurrences are accepted exactly if they are admitted.
pub proof fn lemma_occurrences(owner: DeclarationId, occurrences: Seq<SourceOccurrence>, count: nat)
    requires
        count <= occurrences.len(),
    ensures
        occurrences_verdict(owner, occurrences, count) is Ok <==> occurrences_admitted(
            occurrences,
            count,
        ),
    decreases count,
{
    if count > 0 {
        let last = count - 1;
        lemma_occurrences(owner, occurrences, last as nat);
        if occurrences_verdict(owner, occurrences, count) is Ok {
            assert forall|i: int, j: int| 0 <= i < j < count implies (#[trigger] occurrences[i]).id
                != (#[trigger] occurrences[j]).id by {}
        }
    }
}

/// Whether a declaration that the linker has to find has one provider, an exact
/// symbol of that provider, and a place in the link plan.
pub open spec fn linked(
    w: ClosedWorld,
    provider: ProviderAssessment,
    symbol: SymbolAssessment,
) -> bool {
    &&& provider is Resolved
    &&& symbol is Exact
    &&& symbol->symbol.provider == provider->provider
    &&& exists|i: int|
        0 <= i < w.evidence.link_plan@.len() && #[trigger] w.evidence.link_plan@[i]
            == LinkAtom::Artifact(LinkArtifact { provider_id: provider->provider })
}

/// Whether the selected declaration `id` is declared and understood, with
/// current evidence, whatever its types are.
pub open spec fn admitted(w: ClosedWorld, id: DeclarationId) -> bool {
    &&& w.source.declared(id) is Some
    &&& w.source.declared(id)->0.support is Supported
    &&& occurrences_admitted(
        w.source.declared(id)->0.occurrences@,
        w.source.declared(id)->0.occurrences@.len(),
    )
    &&& w.evidence.evidence_on(id) is Some
    &&& w.evidence.evidence_on(id)->0.source_fingerprint == w.source.fingerprint
    &&& w.evidence.evidence_on(id)->0.target_fingerprint == w.source.target_fingerprint
    &&& w.source.declared(id)->0.linkage is External && (w.source.declared(id)->0.kind is Function
        || w.source.declared(id)->0.kind is Variable) ==> linked(
        w,
        w.evidence.evidence_on(id)->0.provider,
        w.evidence.evidence_on(id)->0.symbol,
    )
}

/// The rules find nothing wrong with a selected declaration before its types
/// are looked at exactly if it is admitted.
proof fn lemma_admission(w: ClosedWorld, id: DeclarationId)
    requires
        w.selected().contains(id),
    ensures
        admission_verdict(w, id) is Ok <==> admitted(w, id),
{
    if let Some(declaration) = w.source.declared(id) {
        lemma_occurrences(
            declaration.id,
            declaration.occurrences@,
            declaration.occurrences@.len(),
        );
    }
}

/// Whether the variants of an enum are distinct, understood and evaluated.
pub open spec fn variants_admitted(variants: Seq<SourceEnumVariant>, count: nat) -> bool {
    &&& forall|i: int, j: int|
        0 <= i < j < count ==> (#[trigger] variants[i]).id != (#[trigger] variants[j]).id
    &&& forall|i: int|
        0 <= i < count ==> (#[trigger] variants[i]).support is Supported
            && variants[i].value is Evaluated
}

/// The first variants are accepted exactly if they are admitted.
pub proof fn lemma_variants(owner: DeclarationId, variants: Seq<SourceEnumVariant>, count: nat)
    requires
        count <= variants.len(),
    ensures
        variants_verdict(owner, variants, count) is Ok <==> variants_admitted(variants, count),
    decreases count,
{
    if count > 0 {
        let last = count - 1;
        lemma_variants(owner, variants, last as nat);
        if variants_verdict(owner, variants, count) is Ok {
            assert forall|i: int, j: int| 0 <= i < j < count implies (#[trigger] variants[i]).id
                != (#[trigger] variants[j]).id by {}
        }
    }
}

/// Whether a declaration keeps the rules that do not concern the types it uses.
pub open spec fn keeps_own_rules(w: ClosedWorld, declaration: SourceDeclaration) -> bool {
    match declaration.kind {
        SourceDeclarationKind::Function(function) => {
            &&& function.calling_convention is Lowered
            &&& function.prototype is Prototyped && !function.prototype->variadic
        },
        SourceDeclarationKind::Record(record) => {
            &&& w.selected().contains(declaration.id)
            &&& w.requirements[declaration.id] is Definition ==> record_admitted(
                w,
                declaration.id,
                record,
                Seq::empty(),
            )
        },
        SourceDeclarationKind::Enum(enumeration) => {
            &&& layout_current(w, declaration.id, false)
            &&& variants_admitted(enumeration.variants@, enumeration.variants@.len())
        },
        SourceDeclarationKind::TypeAlias(_) => true,
        SourceDeclarationKind::Variable(variable) => !variable.thread_local,
        SourceDeclarationKind::Unsupported => false,
    }
}

/// The uses of types that a declaration itself makes. A record of which only
/// the name is needed makes none.
pub open spec fn roots(w: ClosedWorld, declaration: SourceDeclaration) -> Seq<SourceUse> {
    match declaration.kind {
        SourceDeclarationKind::Function(function) => function.parameters@.map_values(
            |parameter: SourceParameter|
                SourceUse { ty: parameter.ty, position: TypePosition::Parameter },
        ).push(SourceUse { ty: function.return_type, position: TypePosition::Return }),
        SourceDeclarationKind::Record(record) => if w.requirements[declaration.id] is Definition {
            field_uses(record)
        } else {
            seq![]
        },
        SourceDeclarationKind::Enum(enumeration) => match enumeration.explicit_underlying_type {
            Some(underlying) => seq![
                SourceUse { ty: underlying, position: TypePosition::ByValue },
            ],
            None => seq![],
        },
        SourceDeclarationKind::TypeAlias(alias) => seq![
            SourceUse { ty: alias.target, position: TypePosition::AliasTarget },
        ],
        SourceDeclarationKind::Variable(variable) => seq![
            SourceUse { ty: variable.ty, position: TypePosition::ByValue },
        ],
        SourceDeclarationKind::Unsupported => seq![],
    }
}

/// The type alias that leads to what a declaration uses, if it declares one.
pub open spec fn root_aliases(declaration: SourceDeclaration) -> Seq<DeclarationId> {
    if declaration.kind is TypeAlias {
        seq![declaration.id]
    } else {
        seq![]
    }
}

/// The record that leads to what a declaration uses, if it declares one.
pub open spec fn root_records(declaration: SourceDeclaration) -> Seq<DeclarationId> {
    if declaration.kind is Record {
        seq![declaration.id]
    } else {
        seq![]
    }
}

/// Where the use at `index` among those that a declaration makes stands.
pub open spec fn root_path(declaration: SourceDeclaration, index: int) -> Seq<char> {
    match declaration.kind {
        SourceDeclarationKind::Function(function) => if index < function.parameters@.len() {
            indexed("function"@, ".parameters"@, function.parameters@[index].ordinal as nat)
        } else {
            "function.return_type"@
        },
        SourceDeclarationKind::Record(_) => indexed("record"@, ".fields"@, index as nat),
        SourceDeclarationKind::Enum(_) => "enum.explicit_underlying_type"@,
        SourceDeclarationKind::TypeAlias(_) => "type_alias.target"@,
        _ => "variable.type"@,
    }
}

/// The first parameters of a function are accepted exactly if each is.
pub proof fn lemma_parameters(
    w: ClosedWorld,
    owner: DeclarationId,
    parameters: Seq<SourceParameter>,
    count: nat,
    aliases: Seq<DeclarationId>,
    records: Seq<DeclarationId>,
)
    requires
        count <= parameters.len(),
    ensures
        parameters_outcome(w, owner, parameters, count, aliases, records) is Accepted
            <==> forall|i: int|
            0 <= i < count ==> accepted_at(
                w,
                owner,
                indexed("function"@, ".parameters"@, (#[trigger] parameters[i]).ordinal as nat),
                SourceUse { ty: parameters[i].ty, position: TypePosition::Parameter },
                aliases,
                records,
            ),
    decreases count,
{
    if count > 0 {
        lemma_parameters(w, owner, parameters, (count - 1) as nat, aliases, records);
    }
}

/// A declaration is accepted exactly if it keeps its own rules and the types
/// that it uses are accepted.
proof fn lemma_declaration(w: ClosedWorld, declaration: SourceDeclaration)
    requires
        w.selected().finite(),
    ensures
        declaration_outcome(w, declaration, Seq::empty(), Seq::empty()) is Accepted
            <==> keeps_own_rules(w, declaration) && forall|i: int|
            0 <= i < roots(w, declaration).len() ==> accepted_at(
                w,
                declaration.id,
                root_path(declaration, i),
                #[trigger] roots(w, declaration)[i],
                root_aliases(declaration),
                root_records(declaration),
            ),
{
    let id = declaration.id;
    let uses = roots(w, declaration);
    let none = Seq::<DeclarationId>::empty();
    match declaration.kind {
        SourceDeclarationKind::Function(function) => {
            let parameters = function.parameters@;
            lemma_parameters(w, id, parameters, parameters.len(), none, none);
            assert(uses[parameters.len() as int] == SourceUse {
                ty: function.return_type,
                position: TypePosition::Return,
            });
            assert forall|i: int| 0 <= i < parameters.len() implies #[trigger] uses[i]
                == (SourceUse { ty: parameters[i].ty, position: TypePosition::Parameter }) by {}
            if forall|i: int|
                0 <= i < uses.len() ==> accepted_at(
                    w,
                    id,
                    root_path(declaration, i),
                    #[trigger] uses[i],
                    none,
                    none,
                ) {
                assert forall|i: int| 0 <= i < parameters.len() implies accepted_at(
                    w,
                    id,
                    indexed("function"@, ".parameters"@, (#[trigger] parameters[i]).ordinal as nat),
                    SourceUse { ty: parameters[i].ty, position: TypePosition::Parameter },
                    none,
                    none,
                ) by {
                    assert(accepted_at(w, id, root_path(declaration, i), uses[i], none, none));
                }
                let last = parameters.len() as int;
                assert(accepted_at(w, id, root_path(declaration, last), uses[last], none, none));
            }
        },
        SourceDeclarationKind::Record(record) => {
            lemma_record_parts(w, id, record, none, none);
            assert(none.push(id) =~= seq![id]);
        },
        SourceDeclarationKind::Enum(enumeration) => {
            lemma_variants(id, enumeration.variants@, enumeration.variants@.len());
            if enumeration.explicit_underlying_type is Some {
                assert(uses[0] == uses.last());
            }
        },
        SourceDeclarationKind::TypeAlias(_) => {
            assert(none.push(id) =~= seq![id]);
            assert(uses[0] == uses.last());
        },
        SourceDeclarationKind::Variable(_) => {
            assert(uses[0] == uses.last());
        },
        SourceDeclarationKind::Unsupported => {},
    }
}

/// Whether every use of a type that a walk from a declaration reaches is
/// admitted.
pub open spec fn walks_end_well(w: ClosedWorld, declaration: SourceDeclaration) -> bool {
    forall|walk: Seq<SourceUse>| #[trigger]
        is_walk(w, walk) && roots(w, declaration).contains(walk[0]) ==> ends_well(
            w,
            root_aliases(declaration),
            root_records(declaration),
            walk,
        )
}

/// The types of a selected declaration are accepted exactly if it keeps its
/// own rules and every use that a walk from it reaches is admitted.
pub proof fn law_declaration_accepted(w: ClosedWorld, id: DeclarationId)
    requires
        w.selected().finite(),
        w.selected().contains(id),
        w.source.declared(id) is Some,
    ensures
        body_verdict(w, id) is Ok <==> keeps_own_rules(w, w.source.declared(id)->0)
            && walks_end_well(w, w.source.declared(id)->0),
{
    let declaration = w.source.declared(id)->0;
    let uses = roots(w, declaration);
    let aliases = root_aliases(declaration);
    let records = root_records(declaration);
    lemma_declaration(w, declaration);
    if body_verdict(w, id) is Ok {
        assert forall|walk: Seq<SourceUse>| #[trigger]
            is_walk(w, walk) && uses.contains(walk[0]) implies ends_well(
            w,
            aliases,
            records,
            walk,
        ) by {
            let i = choose|i: int| 0 <= i < uses.len() && uses[i] == walk[0];
            law_type_accepted(
                w,
                declaration.id,
                root_path(declaration, i),
                uses[i],
                aliases,
                records,
            );
        }
    }
    if walks_end_well(w, declaration) {
        assert forall|i: int| 0 <= i < uses.len() implies accepted_at(
            w,
            declaration.id,
            root_path(declaration, i),
            #[trigger] uses[i],
            aliases,
            records,
        ) by {
            law_type_accepted(
                w,
                declaration.id,
                root_path(declaration, i),
                uses[i],
                aliases,
                records,
            );
        }
    }
}

/// Where one declaration is refused, one is the least that is.
proof fn lemma_least_refused(
    ids: Set<DeclarationId>,
    verdict: spec_fn(DeclarationId) -> Verdict,
    id: DeclarationId,
)
    requires
        ids.contains(id),
        verdict(id) is Err,
    ensures
        exists|least: DeclarationId| least_refused(ids, verdict, least),
    decreases id,
{
    if exists|lesser: DeclarationId| #[trigger]
        ids.contains(lesser) && lesser < id && verdict(lesser) is Err {
        let lesser = choose|lesser: DeclarationId| #[trigger]
            ids.contains(lesser) && lesser < id && verdict(lesser) is Err;
        lemma_least_refused(ids, verdict, lesser);
    } else {
        assert(least_refused(ids, verdict, id));
    }
}

/// Nothing is refused exactly if no declaration is.
proof fn lemma_nothing_refused(
    ids: Set<DeclarationId>,
    verdict: spec_fn(DeclarationId) -> Verdict,
)
    ensures
        first_refusal(ids, verdict) is Ok <==> forall|id: DeclarationId| #[trigger]
            ids.contains(id) ==> verdict(id) is Ok,
{
    if exists|id: DeclarationId| #[trigger] ids.contains(id) && verdict(id) is Err {
        let id = choose|id: DeclarationId| #[trigger] ids.contains(id) && verdict(id) is Err;
        lemma_least_refused(ids, verdict, id);
        let least = choose|least: DeclarationId| least_refused(ids, verdict, least);
        assert(least_refused(ids, verdict, least));
    }
}

/// A closed world is accepted exactly if every selected declaration is
/// admitted, keeps its own rules, and uses no type, however far a walk from it
/// goes, where the type is not admitted.
pub proof fn law_world_accepted(w: ClosedWorld)
    requires
        w.selected().finite(),
    ensures
        world_verdict(w) is Ok <==> forall|id: DeclarationId| #[trigger]
            w.selected().contains(id) ==> {
                &&& admitted(w, id)
                &&& keeps_own_rules(w, w.source.declared(id)->0)
                &&& walks_end_well(w, w.source.declared(id)->0)
            },
{
    let ids = w.selected();
    let admission = |id: DeclarationId| admission_verdict(w, id);
    let body = |id: DeclarationId| body_verdict(w, id);
    lemma_nothing_refused(ids, admission);
    lemma_nothing_refused(ids, body);
    assert forall|id: DeclarationId| #[trigger] ids.contains(id) implies (admission(id) is Ok
        && body(id) is Ok <==> {
        &&& admitted(w, id)
        &&& keeps_own_rules(w, w.source.declared(id)->0)
        &&& walks_end_well(w, w.source.declared(id)->0)
    }) by {
        lemma_admission(w, id);
        if w.source.declared(id) is Some {
            law_declaration_accepted(w, id);
        }
    }
}

/// A request is accepted exactly if its evidence was gathered for its source
/// and target, and every declaration of its closure is admitted, keeps its own
/// rules, and uses no type where it is not admitted.
pub proof fn law_request_accepted(
    source: SourcePackage,
    evidence: LinkAnalysis,
    closure: Seq<ClosureEntry>,
)
    ensures
        request_verdict(source, evidence, closure) is Ok <==> {
            let w = requested_world(source, evidence, closure);
            &&& evidence.source_fingerprint == source.fingerprint
            &&& evidence.target_fingerprint == source.target_fingerprint
            &&& forall|i: int|
                0 <= i < closure.len() ==> {
                    let id = (#[trigger] closure[i]).declaration;
                    &&& admitted(w, id)
                    &&& keeps_own_rules(w, w.source.declared(id)->0)
                    &&& walks_end_well(w, w.source.declared(id)->0)
                }
        },
{
    let w = requested_world(source, evidence, closure);
    lemma_closure_map(closure, closure.len());
    law_world_accepted(w);
    if world_verdict(w) is Ok {
        assert forall|i: int| 0 <= i < closure.len() implies w.selected().contains(
            (#[trigger] closure[i]).declaration,
        ) by {
            assert(w.requirements.contains_key(closure[i].declaration));
        }
    } else {
        let id = choose|id: DeclarationId| #[trigger]
            w.selected().contains(id) && !({
                &&& admitted(w, id)
                &&& keeps_own_rules(w, w.source.declared(id)->0)
                &&& walks_end_well(w, w.source.declared(id)->0)
            });
        assert(w.requirements.contains_key(id));
        let i = choose|i: int| 0 <= i < closure.len() && (#[trigger] closure[i]).declaration == id;
        assert(closure[i].declaration == id);
    }
}

/// Evidence that was gathered for another source is refused as such, whatever
/// else is wrong; so is evidence for another target, where the source is right.
pub proof fn law_stale_evidence_is_refused(
    source: SourcePackage,
    evidence: LinkAnalysis,
    closure: Seq<ClosureEntry>,
)
    ensures
        evidence.source_fingerprint != source.fingerprint ==> request_verdict(
            source,
            evidence,
            closure,
        ) == Verdict::Err(Refusal::SourceFingerprintMismatch),
        evidence.source_fingerprint == source.fingerprint && evidence.target_fingerprint
            != source.target_fingerprint ==> request_verdict(source, evidence, closure)
            == Verdict::Err(Refusal::TargetFingerprintMismatch),
{
}

/// In an accepted world every type that a walk from a selected declaration
/// names is itself selected and declared.
pub proof fn law_references_stay_in_the_world(
    w: ClosedWorld,
    id: DeclarationId,
    walk: Seq<SourceUse>,
    target: DeclarationId,
)
    requires
        w.selected().finite(),
        world_verdict(w) is Ok,
        w.selected().contains(id),
        is_walk(w, walk),
        roots(w, w.source.declared(id)->0).contains(walk[0]),
        walk.last().ty.kind == CTypeKind::AliasRef(target) || walk.last().ty.kind
            == CTypeKind::RecordRef(target) || walk.last().ty.kind == CTypeKind::EnumRef(target),
    ensures
        w.selected().contains(target),
        w.source.declared(target) is Some,
{
    law_world_accepted(w);
}

/// In an accepted world a walk from a selected declaration meets a record by
/// value only if its definition is selected and complete.
pub proof fn law_records_by_value_are_defined(
    w: ClosedWorld,
    id: DeclarationId,
    walk: Seq<SourceUse>,
    target: DeclarationId,
)
    requires
        w.selected().finite(),
        world_verdict(w) is Ok,
        w.selected().contains(id),
        is_walk(w, walk),
        roots(w, w.source.declared(id)->0).contains(walk[0]),
        walk.last().ty.kind == CTypeKind::RecordRef(target),
        !merely_named(walk.last().position),
    ensures
        w.requirements[target] is Definition,
        w.record(target) matches Some(record) && record.completeness is Complete,
{
    law_world_accepted(w);
}

/// In an accepted world no type alias leads back to itself and no record holds
/// itself by value, however many declarations lie between.
pub proof fn law_no_cycles(w: ClosedWorld, id: DeclarationId, walk: Seq<SourceUse>)
    requires
        w.selected().finite(),
        world_verdict(w) is Ok,
        w.selected().contains(id),
        is_walk(w, walk),
        roots(w, w.source.declared(id)->0).contains(walk[0]),
    ensures
        fresh(root_aliases(w.source.declared(id)->0), aliases_along(w, walk)),
        fresh(root_records(w.source.declared(id)->0), records_along(w, walk)),
{
    let declaration = w.source.declared(id)->0;
    let uses = roots(w, declaration);
    law_world_accepted(w);
    law_declaration_accepted(w, id);
    lemma_declaration(w, declaration);
    let i = choose|i: int| 0 <= i < uses.len() && uses[i] == walk[0];
    law_nothing_is_opened_twice(
        w,
        declaration.id,
        root_path(declaration, i),
        root_aliases(declaration),
        root_records(declaration),
        walk,
    );
}

/// Whether a verdict speaks of the source, and not of what it is lowered to.
pub open spec fn speaks_of_source(verdict: Verdict) -> bool {
    verdict matches Err(refusal) ==> !(refusal is ProjectionInvariant)
}

/// The verdict on a type speaks of the source.
proof fn lemma_type_speaks(
    w: ClosedWorld,
    owner: DeclarationId,
    path: Seq<char>,
    ty: CType,
    position: TypePosition,
    aliases: Seq<DeclarationId>,
    records: Seq<DeclarationId>,
)
    requires
        w.selected().finite(),
    ensures
        speaks_of_source(
            type_outcome(w, owner, path, ty, position, aliases, records).verdict(),
        ),
    decreases unopened(w, aliases, records), 1nat, ty, 0nat,
{
    match ty.kind {
        CTypeKind::Pointer(pointee) => {
            lemma_type_speaks(
                w,
                owner,
                path + ".pointee"@,
                *pointee,
                TypePosition::BehindPointer,
                aliases,
                records,
            );
        },
        CTypeKind::Array { element, .. } => {
            lemma_type_speaks(
                w,
                owner,
                path + ".element"@,
                *element,
                element_position(position),
                aliases,
                records,
            );
        },
        CTypeKind::Function(function) => {
            lemma_type_speaks(
                w,
                owner,
                path + ".return_type"@,
                *function.return_type,
                TypePosition::Return,
                aliases,
                records,
            );
            lemma_callback_speaks(
                w,
                owner,
                path,
                function.parameters@,
                function.parameters@.len(),
                aliases,
                records,
            );
        },
        CTypeKind::AliasRef(target) => {
            if use_verdict(w, owner, path, ty, position, aliases) is Ok {
                lemma_unvisited_push(w.selected(), aliases, target);
                lemma_type_speaks(
                    w,
                    owner,
                    path + ".alias_target"@,
                    w.alias_target(target)->0,
                    position,
                    aliases.push(target),
                    records,
                );
            }
        },
        CTypeKind::RecordRef(target) => {
            if use_verdict(w, owner, path, ty, position, aliases) is Ok {
                lemma_record_speaks(w, target, w.record(target)->0, aliases, records);
            }
        },
        _ => {},
    }
}

/// The verdict on the parameters of a function type speaks of the source.
proof fn lemma_callback_speaks(
    w: ClosedWorld,
    owner: DeclarationId,
    path: Seq<char>,
    parameters: Seq<CParameter>,
    count: nat,
    aliases: Seq<DeclarationId>,
    records: Seq<DeclarationId>,
)
    requires
        w.selected().finite(),
        count <= parameters.len(),
    ensures
        speaks_of_source(
            callback_parameters_outcome(
                w,
                owner,
                path,
                parameters,
                count,
                aliases,
                records,
            ).verdict(),
        ),
    decreases unopened(w, aliases, records), 1nat, parameters, count,
{
    if count > 0 {
        lemma_callback_speaks(w, owner, path, parameters, (count - 1) as nat, aliases, records);
        lemma_type_speaks(
            w,
            owner,
            indexed(path, ".parameters"@, (count - 1) as nat),
            parameters[count - 1].ty,
            TypePosition::Parameter,
            aliases,
            records,
        );
    }
}

/// The verdict on a record speaks of the source.
proof fn lemma_record_speaks(
    w: ClosedWorld,
    owner: DeclarationId,
    record: SourceRecord,
    aliases: Seq<DeclarationId>,
    records: Seq<DeclarationId>,
)
    requires
        w.selected().finite(),
    ensures
        speaks_of_source(record_outcome(w, owner, record, aliases, records).verdict()),
    decreases
            unopened(w, aliases, records) + if w.selected().contains(owner) {
                0nat
            } else {
                1nat
            },
            0nat,
            record,
            0nat,
{
    if record_entry_verdict(w, owner, record, records) is Ok {
        lemma_unvisited_push(w.selected(), records, owner);
        lemma_fields_speak(
            w,
            owner,
            record,
            record.fields@.len(),
            aliases,
            records.push(owner),
        );
    }
}

/// The verdict on the fields of a record speaks of the source.
proof fn lemma_fields_speak(
    w: ClosedWorld,
    owner: DeclarationId,
    record: SourceRecord,
    count: nat,
    aliases: Seq<DeclarationId>,
    records: Seq<DeclarationId>,
)
    requires
        w.selected().finite(),
        count <= record.fields@.len(),
    ensures
        speaks_of_source(
            record_fields_outcome(w, owner, record, count, aliases, records).verdict(),
        ),
    decreases unopened(w, aliases, records), 2nat, record, count,
{
    if count > 0 {
        lemma_fields_speak(w, owner, record, (count - 1) as nat, aliases, records);
        lemma_type_speaks(
            w,
            owner,
            indexed("record"@, ".fields"@, (count - 1) as nat),
            record.fields@[count - 1].ty,
            TypePosition::ByValue,
            aliases,
            records,
        );
    }
}

/// The verdict on the parameters of a function speaks of the source.
proof fn lemma_parameters_speak(
    w: ClosedWorld,
    owner: DeclarationId,
    parameters: Seq<SourceParameter>,
    count: nat,
)
    requires
        w.selected().finite(),
    ensures
        speaks_of_source(
            parameters_outcome(
                w,
                owner,
                parameters,
                count,
                Seq::empty(),
                Seq::empty(),
            ).verdict(),
        ),
    decreases count,
{
    if count > 0 {
        lemma_parameters_speak(w, owner, parameters, (count - 1) as nat);
        lemma_type_speaks(
            w,
            owner,
            indexed("function"@, ".parameters"@, parameters[count - 1].ordinal as nat),
            parameters[count - 1].ty,
            TypePosition::Parameter,
            Seq::empty(),
            Seq::empty(),
        );
    }
}

/// The verdict on the variants of an enum speaks of the source.
proof fn lemma_variants_speak(
    owner: DeclarationId,
    variants: Seq<SourceEnumVariant>,
    count: nat,
)
    ensures
        speaks_of_source(variants_verdict(owner, variants, count)),
    decreases count,
{
    if count > 0 {
        lemma_variants_speak(owner, variants, (count - 1) as nat);
    }
}

/// The verdict on the occurrences of a declaration speaks of the source.
proof fn lemma_occurrences_speak(
    owner: DeclarationId,
    occurrences: Seq<SourceOccurrence>,
    count: nat,
)
    ensures
        speaks_of_source(occurrences_verdict(owner, occurrences, count)),
    decreases count,
{
    if count > 0 {
        lemma_occurrences_speak(owner, occurrences, (count - 1) as nat);
    }
}

/// The verdicts on a selected declaration speak of the source.
proof fn lemma_declaration_speaks(w: ClosedWorld, id: DeclarationId)
    requires
        w.selected().finite(),
    ensures
        speaks_of_source(admission_verdict(w, id)),
        speaks_of_source(body_verdict(w, id)),
{
    if let Some(declaration) = w.source.declared(id) {
        let own = declaration.id;
        let none = Seq::<DeclarationId>::empty();
        lemma_occurrences_speak(
            own,
            declaration.occurrences@,
            declaration.occurrences@.len(),
        );
        match declaration.kind {
            SourceDeclarationKind::Function(function) => {
                lemma_type_speaks(
                    w,
                    own,
                    "function.return_type"@,
                    function.return_type,
                    TypePosition::Return,
                    none,
                    none,
                );
                lemma_parameters_speak(
                    w,
                    own,
                    function.parameters@,
                    function.parameters@.len(),
                );
            },
            SourceDeclarationKind::Record(record) => {
                lemma_record_speaks(w, own, record, none, none);
            },
            SourceDeclarationKind::Enum(enumeration) => {
                if let Some(underlying) = enumeration.explicit_underlying_type {
                    lemma_type_speaks(
                        w,
                        own,
                        "enum.explicit_underlying_type"@,
                        underlying,
                        TypePosition::ByValue,
                        none,
                        none,
                    );
                }
                lemma_variants_speak(own, enumeration.variants@, enumeration.variants@.len());
            },
            SourceDeclarationKind::TypeAlias(alias) => {
                lemma_type_speaks(
                    w,
                    own,
                    "type_alias.target"@,
                    alias.target,
                    TypePosition::AliasTarget,
                    none.push(own),
                    none,
                );
            },
            SourceDeclarationKind::Variable(variable) => {
                lemma_type_speaks(
                    w,
                    own,
                    "variable.type"@,
                    variable.ty,
                    TypePosition::ByValue,
                    none,
                    none,
                );
            },
            SourceDeclarationKind::Unsupported => {},
        }
    }
}

/// A refused request is refused for what its source or its evidence says, and
/// never as a broken projection: no declaration is verified twice.
pub proof fn law_requests_are_refused_for_their_source(
    source: SourcePackage,
    evidence: LinkAnalysis,
    closure: Seq<ClosureEntry>,
)
    ensures
        speaks_of_source(request_verdict(source, evidence, closure)),
{
    let w = requested_world(source, evidence, closure);
    lemma_closure_map(closure, closure.len());
    let admission = |id: DeclarationId| admission_verdict(w, id);
    let body = |id: DeclarationId| body_verdict(w, id);
    lemma_declaration_speaks(
        w,
        choose|id: DeclarationId| least_refused(w.selected(), admission, id),
    );
    lemma_declaration_speaks(w, choose|id: DeclarationId| least_refused(w.selected(), body, id));
}

} // verus!

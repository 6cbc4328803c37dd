//! What is found under an identifier, said of the lists that are searched.
use vstd::prelude::*;

use crate::evidence::{LinkAnalysis, LinkArtifact, LinkAtom, ProviderId};
use crate::projection::RustItem;
use crate::projection_laws::{held_declaration, held_name};
use crate::projection_rules::item_map;
use crate::request::ClosureEntry;
use crate::request_laws::lemma_closure_map;
use crate::source::{DeclarationId, SourceDeclarationKind, SourcePackage};
use crate::source_rules::{closure_map, in_order, ClosedWorld};
use crate::source_verifier::SourceVerifier;

verus! {

/// Whether the declaration at `index` is the one that `id` stands for: the
/// first with that identifier.
pub open spec fn declares(package: SourcePackage, id: DeclarationId, index: int) -> bool {
    &&& 0 <= index < package.declarations@.len()
    &&& package.declarations@[index].id == id
    &&& forall|earlier: int|
        0 <= earlier < index ==> (#[trigger] package.declarations@[earlier]).id != id
}

/// Whether no declaration has the identifier `id`.
pub open spec fn declares_nothing(package: SourcePackage, id: DeclarationId) -> bool {
    forall|i: int|
        0 <= i < package.declarations@.len() ==> (#[trigger] package.declarations@[i]).id != id
}

/// The first declaration with an identifier is the one that is found.
pub proof fn law_first_declaration_is_found(
    package: SourcePackage,
    id: DeclarationId,
    index: int,
)
    requires
        declares(package, id, index),
    ensures
        package.declared(id) == Some(package.declarations@[index]),
{
    assert(package.first_at(id, index));
    let first = choose|first: int| package.first_at(id, first);
    assert(package.first_at(id, first));
    assert(first == index);
}

/// Nothing is found exactly if no declaration has the identifier.
pub proof fn law_absent_declaration_is_not_found(package: SourcePackage, id: DeclarationId)
    ensures
        package.declared(id) is None <==> declares_nothing(package, id),
{
    if !declares_nothing(package, id) {
        let i = choose|i: int|
            0 <= i < package.declarations@.len() && (#[trigger] package.declarations@[i]).id == id;
        lemma_declares(package, id, i);
        let index = choose|index: int| declares(package, id, index);
        law_first_declaration_is_found(package, id, index);
    }
}

/// Where a declaration has the identifier, one is the first that has it.
proof fn lemma_declares(package: SourcePackage, id: DeclarationId, at: int)
    requires
        0 <= at < package.declarations@.len(),
        package.declarations@[at].id == id,
    ensures
        exists|index: int| declares(package, id, index),
    decreases at,
{
    if exists|earlier: int|
        0 <= earlier < at && (#[trigger] package.declarations@[earlier]).id == id {
        let earlier = choose|earlier: int|
            0 <= earlier < at && (#[trigger] package.declarations@[earlier]).id == id;
        lemma_declares(package, id, earlier);
    } else {
        assert(declares(package, id, at));
    }
}

/// A selected declaration is found as a record, or as a type alias, exactly if
/// the declaration that its identifier stands for is one.
pub proof fn law_records_and_aliases_are_found(w: ClosedWorld, id: DeclarationId, index: int)
    requires
        declares(w.source, id, index),
    ensures
        w.record(id) == match w.source.declarations@[index].kind {
            SourceDeclarationKind::Record(record) => Some(record),
            _ => None,
        },
        w.alias_target(id) == match w.source.declarations@[index].kind {
            SourceDeclarationKind::TypeAlias(alias) => Some(alias.target),
            _ => None,
        },
{
    law_first_declaration_is_found(w.source, id, index);
}

/// An absent declaration is found neither as a record nor as a type alias.
pub proof fn law_absent_records_and_aliases(w: ClosedWorld, id: DeclarationId)
    requires
        declares_nothing(w.source, id),
    ensures
        w.record(id) is None,
        w.alias_target(id) is None,
{
    law_absent_declaration_is_not_found(w.source, id);
}

/// Whether evidence and layouts name each declaration at most once, in
/// increasing order.
pub open spec fn strictly_increasing(analysis: LinkAnalysis) -> bool {
    &&& forall|i: int, j: int|
        0 <= i < j < analysis.declaration_evidence@.len() ==> (
        #[trigger] analysis.declaration_evidence@[i]).declaration < (
        #[trigger] analysis.declaration_evidence@[j]).declaration
    &&& forall|i: int, j: int|
        0 <= i < j < analysis.layouts@.len() ==> (#[trigger] analysis.layouts@[i]).declaration < (
        #[trigger] analysis.layouts@[j]).declaration
}

/// An analysis is ordered exactly if evidence and layouts each name their
/// declarations in strictly increasing order.
pub proof fn law_order_is_strict(analysis: LinkAnalysis)
    ensures
        analysis.ordered() <==> strictly_increasing(analysis),
{
}

/// The evidence that names a declaration is the one that is found.
pub proof fn law_evidence_is_found(analysis: LinkAnalysis, index: int)
    requires
        strictly_increasing(analysis),
        0 <= index < analysis.declaration_evidence@.len(),
    ensures
        analysis.evidence_on(analysis.declaration_evidence@[index].declaration) == Some(
            analysis.declaration_evidence@[index],
        ),
{
}

/// The layout that names a declaration is the one that is found.
pub proof fn law_layout_is_found(analysis: LinkAnalysis, index: int)
    requires
        strictly_increasing(analysis),
        0 <= index < analysis.layouts@.len(),
    ensures
        analysis.layout_of(analysis.layouts@[index].declaration) == Some(analysis.layouts@[index]),
{
}

/// No evidence is found exactly if none names the declaration; so for layouts.
pub proof fn law_absent_evidence_is_not_found(analysis: LinkAnalysis, id: DeclarationId)
    ensures
        analysis.evidence_on(id) is None <==> forall|i: int|
            0 <= i < analysis.declaration_evidence@.len() ==> (
            #[trigger] analysis.declaration_evidence@[i]).declaration != id,
        analysis.layout_of(id) is None <==> forall|i: int|
            0 <= i < analysis.layouts@.len() ==> (#[trigger] analysis.layouts@[i]).declaration
                != id,
{
}

/// A provider is planned exactly if a step of the plan hands over a file of it.
pub proof fn law_planned_providers(analysis: LinkAnalysis, provider: ProviderId)
    ensures
        analysis.plans(provider) <==> exists|i: int|
            0 <= i < analysis.link_plan@.len() && #[trigger] analysis.link_plan@[i]
                == LinkAtom::Artifact(LinkArtifact { provider_id: provider }),
{
}

/// The declarations that a closure names are selected, and no others.
pub proof fn law_closure_selects(entries: Seq<ClosureEntry>, id: DeclarationId)
    ensures
        closure_map(entries, entries.len()).dom().finite(),
        closure_map(entries, entries.len()).contains_key(id) <==> exists|i: int|
            0 <= i < entries.len() && (#[trigger] entries[i]).declaration == id,
{
    lemma_closure_map(entries, entries.len());
}

/// Of the entries for one declaration the last says how much is needed.
pub proof fn law_last_entry_counts(entries: Seq<ClosureEntry>, count: nat, index: int)
    requires
        0 <= index < count <= entries.len(),
        forall|later: int|
            index < later < count ==> (#[trigger] entries[later]).declaration
                != entries[index].declaration,
    ensures
        closure_map(entries, count).contains_key(entries[index].declaration),
        closure_map(entries, count)[entries[index].declaration] == entries[index].requirement,
    decreases count,
{
    if index < count - 1 {
        law_last_entry_counts(entries, (count - 1) as nat, index);
        assert(entries[count - 1].declaration != entries[index].declaration);
    }
}

/// An item of a projection is known by the declaration and the name that it
/// holds.
pub proof fn law_items_hold_their_identity(item: RustItem)
    ensures
        item.id() == held_declaration(item),
        item.name() == held_name(item),
{
}

/// Of the items with one declaration the last is the one that is found.
pub proof fn law_last_item_is_found(items: Seq<RustItem>, count: nat, index: int)
    requires
        0 <= index < count <= items.len(),
        forall|later: int|
            index < later < count ==> held_declaration(#[trigger] items[later])
                != held_declaration(items[index]),
    ensures
        item_map(items, count).contains_key(held_declaration(items[index])),
        *item_map(items, count)[held_declaration(items[index])] == items[index],
    decreases count,
{
    if index < count - 1 {
        law_last_item_is_found(items, (count - 1) as nat, index);
        assert(held_declaration(items[count - 1]) != held_declaration(items[index]));
    }
}

/// Nothing is found for a declaration that no item was lowered from.
pub proof fn law_absent_item_is_not_found(
    items: Seq<RustItem>,
    count: nat,
    id: DeclarationId,
)
    requires
        count <= items.len(),
        forall|i: int| 0 <= i < count ==> held_declaration(#[trigger] items[i]) != id,
    ensures
        !item_map(items, count).contains_key(id),
    decreases count,
{
    if count > 0 {
        law_absent_item_is_not_found(items, (count - 1) as nat, id);
        assert(held_declaration(items[count - 1]) != id);
    }
}

/// A list is in order exactly if it increases strictly and holds the
/// declarations of the set, and no others.
pub proof fn law_in_order(ids: Set<DeclarationId>, order: Seq<DeclarationId>)
    ensures
        in_order(ids, order) <==> {
            &&& forall|i: int, j: int| 0 <= i < j < order.len() ==> order[i] < order[j]
            &&& forall|id: DeclarationId| #[trigger]
                ids.contains(id) <==> exists|i: int| 0 <= i < order.len() && order[i] == id
        },
{
    let listed = order.to_set();
    assert forall|id: DeclarationId| #[trigger] listed.contains(id) <==> exists|i: int|
        0 <= i < order.len() && order[i] == id by {}
    if forall|id: DeclarationId| #[trigger]
        ids.contains(id) <==> exists|i: int| 0 <= i < order.len() && order[i] == id {
        assert(listed =~= ids);
    }
}

/// A verifier works on the source, the evidence and the requirements that it
/// holds; what it selects is what has a requirement.
pub proof fn law_verifier_works_on_what_it_holds(verifier: SourceVerifier, id: DeclarationId)
    ensures
        verifier@.source == verifier.source.package,
        verifier@.evidence == verifier.evidence.analysis(),
        verifier@.requirements == verifier.requirements@,
        verifier@.selected().contains(id) <==> verifier.requirements@.contains_key(id),
{
}

} // verus!

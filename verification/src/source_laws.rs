//! What holds of every C type that the pass accepts, and of every one that it
//! refuses.
//!
//! The rules say in which order a type is walked and so which refusal comes
//! first. The laws say, without any order, which uses of types are accepted:
//! those from which every use that can be reached is admitted where it stands.
use vstd::prelude::*;

use crate::error::{Refusal, Verdict};
use crate::position::TypePosition;
use crate::source::{
    ArrayBound, CParameter, CType, CTypeKind, DeclarationId, SourceAttribute, SourceField,
    SourceRecord,
};
use crate::source_rules::{
    body_verdict, callback_parameters_outcome, field_verdict, record_entry_verdict,
    record_fields_outcome, record_outcome, type_outcome, unopened, use_verdict, ClosedWorld,
};
use crate::stack::{fresh, lemma_fresh, lemma_unvisited_push};
use crate::text::indexed;

verus! {

/// A type at the position at which it is used.
pub struct SourceUse {
    pub ty: CType,
    pub position: TypePosition,
}

/// The positions at which a record is named and not held: behind a pointer, and
/// in the declaration of a type alias.
pub open spec fn merely_named(position: TypePosition) -> bool {
    match position {
        TypePosition::BehindPointer | TypePosition::AliasTarget => true,
        TypePosition::ByValue | TypePosition::Return | TypePosition::Parameter => false,
    }
}

/// Whether no attribute of a list bears on the ABI without being understood.
pub open spec fn all_understood(attributes: Seq<SourceAttribute>) -> bool {
    forall|i: int|
        0 <= i < attributes.len() ==> !((#[trigger] attributes[i]).disposition
            is UnsupportedAbiRelevant)
}

/// The type alias that a use looks through, if it looks through one.
pub open spec fn opens_alias(w: ClosedWorld, site: SourceUse) -> Seq<DeclarationId> {
    match site.ty.kind {
        CTypeKind::AliasRef(target) => if w.alias_target(target) is Some {
            seq![target]
        } else {
            seq![]
        },
        _ => seq![],
    }
}

/// The record that a use enters, if it enters one: a record used by value.
pub open spec fn enters_record(w: ClosedWorld, site: SourceUse) -> Seq<DeclarationId> {
    match site.ty.kind {
        CTypeKind::RecordRef(target) => if w.record(target) is Some && !merely_named(
            site.position,
        ) {
            seq![target]
        } else {
            seq![]
        },
        _ => seq![],
    }
}

/// The uses that the fields of a record make.
pub open spec fn field_uses(record: SourceRecord) -> Seq<SourceUse> {
    record.fields@.map_values(
        |field: SourceField| SourceUse { ty: field.ty, position: TypePosition::ByValue },
    )
}

/// The uses that a use is made of. A type alias is made of its target, used
/// where the alias is used, and a record used by value of its fields.
pub open spec fn parts(w: ClosedWorld, site: SourceUse) -> Seq<SourceUse> {
    match site.ty.kind {
        CTypeKind::Pointer(pointee) => seq![
            SourceUse { ty: *pointee, position: TypePosition::BehindPointer },
        ],
        CTypeKind::Array { element, .. } => seq![
            SourceUse {
                ty: *element,
                position: if site.position == TypePosition::Parameter {
                    TypePosition::BehindPointer
                } else {
                    TypePosition::ByValue
                },
            },
        ],
        CTypeKind::Function(function) => function.parameters@.map_values(
            |parameter: CParameter|
                SourceUse { ty: parameter.ty, position: TypePosition::Parameter },
        ).push(SourceUse { ty: *function.return_type, position: TypePosition::Return }),
        CTypeKind::AliasRef(target) => match w.alias_target(target) {
            Some(aliased) => seq![SourceUse { ty: aliased, position: site.position }],
            None => seq![],
        },
        CTypeKind::RecordRef(target) => match w.record(target) {
            Some(record) => if merely_named(site.position) {
                seq![]
            } else {
                field_uses(record)
            },
            None => seq![],
        },
        _ => seq![],
    }
}

/// Whether a layout of the right kind was measured for this source and target.
pub open spec fn layout_current(w: ClosedWorld, id: DeclarationId, record: bool) -> bool {
    w.evidence.layout_of(id) matches Some(layout) && (layout.kind is Record) == record
        && layout.source_fingerprint == w.source.fingerprint && layout.target_fingerprint
        == w.source.target_fingerprint
}

/// Whether a field is understood, is no bitfield, and is a flexible array only
/// at the end of a struct.
pub open spec fn field_admitted(record: SourceRecord, field: SourceField, index: int) -> bool {
    &&& field.support is Supported
    &&& all_understood(field.attributes@)
    &&& field.bit_width is None
    &&& field.ty.kind is Array && field.ty.kind->bound is Flexible ==> record.kind is Struct
        && index == record.fields@.len() - 1
}

/// Whether the record `id` may be entered, where `records` are open, whatever
/// its fields are made of.
pub open spec fn record_admitted(
    w: ClosedWorld,
    id: DeclarationId,
    record: SourceRecord,
    records: Seq<DeclarationId>,
) -> bool {
    &&& record.completeness is Complete
    &&& layout_current(w, id, true)
    &&& record.fields@.len() > 0
    &&& !records.contains(id)
    &&& forall|i: int|
        0 <= i < record.fields@.len() ==> field_admitted(record, #[trigger] record.fields@[i], i)
}

/// Whether a use of a type is admitted, where `aliases` and `records` are
/// open, whatever it is made of.
pub open spec fn use_admitted(
    w: ClosedWorld,
    site: SourceUse,
    aliases: Seq<DeclarationId>,
    records: Seq<DeclarationId>,
) -> bool {
    let ty = site.ty;
    &&& ty.support is Supported
    &&& !ty.qualifiers.is_atomic
    &&& !ty.qualifiers.is_volatile
    &&& ty.nullability is Unspecified || ty.kind is Pointer || ty.kind is Function
    &&& match ty.kind {
        CTypeKind::Void => site.position is Return || site.position is BehindPointer,
        CTypeKind::Bool | CTypeKind::Integer | CTypeKind::Floating | CTypeKind::Pointer(_) => true,
        CTypeKind::Complex | CTypeKind::Unsupported => false,
        CTypeKind::Array { bound, parameter_qualifiers, .. } => {
            &&& site.position is Parameter || (!parameter_qualifiers.is_const
                && !parameter_qualifiers.is_volatile && !parameter_qualifiers.is_restrict
                && !parameter_qualifiers.is_atomic)
            &&& match bound {
                ArrayBound::Fixed { elements } => elements > 0,
                ArrayBound::Flexible => site.position is ByValue || site.position is Parameter,
                ArrayBound::Incomplete => site.position is Parameter,
                ArrayBound::StaticMinimum => site.position is Parameter,
            }
        },
        CTypeKind::Function(function) => {
            &&& site.position is BehindPointer || site.position is Parameter
            &&& function.calling_convention is Lowered
            &&& function.prototype is Prototyped && !function.prototype->variadic
        },
        CTypeKind::AliasRef(target) => {
            &&& w.selected().contains(target)
            &&& w.alias_target(target) is Some
            &&& !aliases.contains(target)
        },
        CTypeKind::RecordRef(target) => {
            &&& w.selected().contains(target)
            &&& w.record(target) is Some
            &&& merely_named(site.position) || (w.requirements[target] is Definition
                && record_admitted(w, target, w.record(target)->0, records))
        },
        CTypeKind::EnumRef(target) => {
            &&& w.selected().contains(target)
            &&& w.source.declared(target) matches Some(declaration) && declaration.kind is Enum
            &&& layout_current(w, target, false)
        },
    }
}

/// Whether each use after the first is a part of the one before it.
pub open spec fn is_walk(w: ClosedWorld, walk: Seq<SourceUse>) -> bool {
    &&& walk.len() > 0
    &&& forall|i: int|
        0 <= i < walk.len() - 1 ==> parts(w, #[trigger] walk[i]).contains(walk[i + 1])
}

/// The type aliases that a walk looks through, in order.
pub open spec fn aliases_along(w: ClosedWorld, walk: Seq<SourceUse>) -> Seq<DeclarationId>
    decreases walk.len(),
{
    if walk.len() == 0 {
        seq![]
    } else {
        opens_alias(w, walk[0]) + aliases_along(w, walk.drop_first())
    }
}

/// The records that a walk enters, in order.
pub open spec fn records_along(w: ClosedWorld, walk: Seq<SourceUse>) -> Seq<DeclarationId>
    decreases walk.len(),
{
    if walk.len() == 0 {
        seq![]
    } else {
        enters_record(w, walk[0]) + records_along(w, walk.drop_first())
    }
}

/// Whether the last use of a walk is admitted, where `aliases` and `records`
/// are open at the first.
pub open spec fn ends_well(
    w: ClosedWorld,
    aliases: Seq<DeclarationId>,
    records: Seq<DeclarationId>,
    walk: Seq<SourceUse>,
) -> bool {
    use_admitted(
        w,
        walk.last(),
        aliases + aliases_along(w, walk.drop_last()),
        records + records_along(w, walk.drop_last()),
    )
}

/// Whether the rules accept a use at `path` within `owner`, with all that it is
/// made of.
pub open spec fn accepted_at(
    w: ClosedWorld,
    owner: DeclarationId,
    path: Seq<char>,
    site: SourceUse,
    aliases: Seq<DeclarationId>,
    records: Seq<DeclarationId>,
) -> bool {
    type_outcome(w, owner, path, site.ty, site.position, aliases, records) is Accepted
}

/// The rules find nothing wrong with a use exactly if it is admitted; where
/// the use enters a record, the record and its fields are part of that.
proof fn lemma_use_admitted(
    w: ClosedWorld,
    owner: DeclarationId,
    path: Seq<char>,
    site: SourceUse,
    aliases: Seq<DeclarationId>,
    records: Seq<DeclarationId>,
)
    ensures
        use_admitted(w, site, aliases, records) <==> {
            &&& use_verdict(w, owner, path, site.ty, site.position, aliases) is Ok
            &&& enters_record(w, site).len() > 0 ==> record_admitted(
                w,
                enters_record(w, site)[0],
                w.record(enters_record(w, site)[0])->0,
                records,
            )
        },
{
}

/// The rules find nothing wrong with a record and its fields exactly if it is
/// admitted.
proof fn lemma_record_admitted(
    w: ClosedWorld,
    id: DeclarationId,
    record: SourceRecord,
    records: Seq<DeclarationId>,
)
    ensures
        record_admitted(w, id, record, records) <==> {
            &&& record_entry_verdict(w, id, record, records) is Ok
            &&& forall|i: int|
                0 <= i < record.fields@.len() ==> field_verdict(id, record, i) is Ok
                    && field_admitted(record, #[trigger] record.fields@[i], i)
        },
{
    assert forall|i: int|
        0 <= i < record.fields@.len() && field_admitted(
            record,
            #[trigger] record.fields@[i],
            i,
        ) implies field_verdict(id, record, i) is Ok by {}
}

/// The first parameters of a function type are accepted exactly if each is.
pub proof fn lemma_callback_parameters(
    w: ClosedWorld,
    owner: DeclarationId,
    path: Seq<char>,
    parameters: Seq<CParameter>,
    count: nat,
    aliases: Seq<DeclarationId>,
    records: Seq<DeclarationId>,
)
    requires
        w.selected().finite(),
        count <= parameters.len(),
    ensures
        callback_parameters_outcome(w, owner, path, parameters, count, aliases, records)
            is Accepted <==> forall|i: int|
            0 <= i < count ==> accepted_at(
                w,
                owner,
                indexed(path, ".parameters"@, i as nat),
                SourceUse { ty: (#[trigger] parameters[i]).ty, position: TypePosition::Parameter },
                aliases,
                records,
            ),
    decreases count,
{
    if count > 0 {
        lemma_callback_parameters(
            w,
            owner,
            path,
            parameters,
            (count - 1) as nat,
            aliases,
            records,
        );
    }
}

/// The first fields of a record are accepted exactly if each is.
pub proof fn lemma_record_fields(
    w: ClosedWorld,
    owner: DeclarationId,
    record: SourceRecord,
    count: nat,
    aliases: Seq<DeclarationId>,
    records: Seq<DeclarationId>,
)
    requires
        w.selected().finite(),
        count <= record.fields@.len(),
    ensures
        record_fields_outcome(w, owner, record, count, aliases, records) is Accepted <==> forall|
            i: int,
        |
            0 <= i < count ==> field_admitted(record, #[trigger] record.fields@[i], i)
                && accepted_at(
                w,
                owner,
                indexed("record"@, ".fields"@, i as nat),
                SourceUse { ty: record.fields@[i].ty, position: TypePosition::ByValue },
                aliases,
                records,
            ),
    decreases count,
{
    if count > 0 {
        lemma_record_fields(w, owner, record, (count - 1) as nat, aliases, records);
        assert(field_verdict(owner, record, count - 1) is Ok <==> field_admitted(
            record,
            record.fields@[count - 1],
            count - 1,
        ));
    }
}

/// A record is accepted exactly if it is admitted and each of its fields is
/// accepted.
pub proof fn lemma_record_parts(
    w: ClosedWorld,
    id: DeclarationId,
    record: SourceRecord,
    aliases: Seq<DeclarationId>,
    records: Seq<DeclarationId>,
)
    requires
        w.selected().finite(),
    ensures
        record_outcome(w, id, record, aliases, records) is Accepted <==> record_admitted(
            w,
            id,
            record,
            records,
        ) && forall|i: int|
            0 <= i < field_uses(record).len() ==> accepted_at(
                w,
                id,
                indexed("record"@, ".fields"@, i as nat),
                #[trigger] field_uses(record)[i],
                aliases,
                records.push(id),
            ),
{
    lemma_record_admitted(w, id, record, records);
    lemma_record_fields(w, id, record, record.fields@.len(), aliases, records.push(id));
    let uses = field_uses(record);
    assert forall|i: int| 0 <= i < record.fields@.len() implies #[trigger] uses[i] == (SourceUse {
        ty: record.fields@[i].ty,
        position: TypePosition::ByValue,
    }) by {}
    if record_admitted(w, id, record, records) && forall|i: int|
        0 <= i < uses.len() ==> accepted_at(
            w,
            id,
            indexed("record"@, ".fields"@, i as nat),
            #[trigger] uses[i],
            aliases,
            records.push(id),
        ) {
        assert forall|i: int| 0 <= i < record.fields@.len() implies field_admitted(
            record,
            #[trigger] record.fields@[i],
            i,
        ) && accepted_at(
            w,
            id,
            indexed("record"@, ".fields"@, i as nat),
            SourceUse { ty: record.fields@[i].ty, position: TypePosition::ByValue },
            aliases,
            records.push(id),
        ) by {
            assert(uses[i] == (SourceUse {
                ty: record.fields@[i].ty,
                position: TypePosition::ByValue,
            }));
        }
    }
}

/// Who owns the parts of a use: the record that the use enters, or else the
/// owner of the use.
pub open spec fn part_owner(
    w: ClosedWorld,
    owner: DeclarationId,
    site: SourceUse,
) -> DeclarationId {
    if enters_record(w, site).len() > 0 {
        enters_record(w, site)[0]
    } else {
        owner
    }
}

/// Where the part at `index` of a use stands.
pub open spec fn part_path(path: Seq<char>, site: SourceUse, index: int) -> Seq<char> {
    match site.ty.kind {
        CTypeKind::Pointer(_) => path + ".pointee"@,
        CTypeKind::Array { .. } => path + ".element"@,
        CTypeKind::Function(function) => if index < function.parameters@.len() {
            indexed(path, ".parameters"@, index as nat)
        } else {
            path + ".return_type"@
        },
        CTypeKind::AliasRef(_) => path + ".alias_target"@,
        _ => indexed("record"@, ".fields"@, index as nat),
    }
}

/// A use is accepted exactly if it is admitted and each of its parts is
/// accepted.
proof fn lemma_parts(
    w: ClosedWorld,
    owner: DeclarationId,
    path: Seq<char>,
    site: SourceUse,
    aliases: Seq<DeclarationId>,
    records: Seq<DeclarationId>,
)
    requires
        w.selected().finite(),
    ensures
        accepted_at(w, owner, path, site, aliases, records) <==> use_admitted(
            w,
            site,
            aliases,
            records,
        ) && forall|i: int|
            0 <= i < parts(w, site).len() ==> accepted_at(
                w,
                part_owner(w, owner, site),
                part_path(path, site, i),
                #[trigger] parts(w, site)[i],
                aliases + opens_alias(w, site),
                records + enters_record(w, site),
            ),
{
    lemma_use_admitted(w, owner, path, site, aliases, records);
    let all = parts(w, site);
    let below_aliases = aliases + opens_alias(w, site);
    let below_records = records + enters_record(w, site);
    match site.ty.kind {
        CTypeKind::Function(function) => {
            assert(below_aliases =~= aliases);
            assert(below_records =~= records);
            let parameters = function.parameters@;
            lemma_callback_parameters(
                w,
                owner,
                path,
                parameters,
                parameters.len(),
                aliases,
                records,
            );
            assert(all[parameters.len() as int] == SourceUse {
                ty: *function.return_type,
                position: TypePosition::Return,
            });
            assert forall|i: int| 0 <= i < parameters.len() implies #[trigger] all[i]
                == (SourceUse { ty: parameters[i].ty, position: TypePosition::Parameter }) by {}
            if forall|i: int|
                0 <= i < all.len() ==> accepted_at(
                    w,
                    owner,
                    part_path(path, site, i),
                    #[trigger] all[i],
                    aliases,
                    records,
                ) {
                assert forall|i: int| 0 <= i < parameters.len() implies accepted_at(
                    w,
                    owner,
                    indexed(path, ".parameters"@, i as nat),
                    SourceUse {
                        ty: (#[trigger] parameters[i]).ty,
                        position: TypePosition::Parameter,
                    },
                    aliases,
                    records,
                ) by {
                    assert(accepted_at(
                        w,
                        owner,
                        part_path(path, site, i),
                        all[i],
                        aliases,
                        records,
                    ));
                }
                let last = all[parameters.len() as int];
                assert(accepted_at(w, owner, path + ".return_type"@, last, aliases, records));
            }
        },
        CTypeKind::AliasRef(target) => {
            assert(below_records =~= records);
            if w.alias_target(target) is Some {
                assert(below_aliases =~= aliases.push(target));
                assert(all[0] == all.last());
            }
        },
        CTypeKind::RecordRef(target) => {
            assert(below_aliases =~= aliases);
            if w.record(target) is Some && !merely_named(site.position) {
                assert(below_records =~= records.push(target));
                lemma_record_parts(w, target, w.record(target)->0, aliases, records);
            }
        },
        CTypeKind::Pointer(_) | CTypeKind::Array { .. } => {
            assert(below_aliases =~= aliases);
            assert(below_records =~= records);
            assert(all[0] == all.last());
        },
        _ => {},
    }
}

/// What is open along a walk is open at its first use or along the rest.
proof fn lemma_along(w: ClosedWorld, first: SourceUse, rest: Seq<SourceUse>)
    requires
        rest.len() > 0,
    ensures
        (seq![first] + rest).drop_first() == rest,
        (seq![first] + rest).last() == rest.last(),
        aliases_along(w, (seq![first] + rest).drop_last()) == opens_alias(w, first)
            + aliases_along(w, rest.drop_last()),
        records_along(w, (seq![first] + rest).drop_last()) == enters_record(w, first)
            + records_along(w, rest.drop_last()),
{
    let walk = seq![first] + rest;
    assert(walk.drop_first() =~= rest);
    assert(walk.drop_last().drop_first() =~= rest.drop_last());
    assert(walk.drop_last()[0] == first);
}

/// A walk without its first use is a walk from a part of that use.
proof fn lemma_walk_rest(w: ClosedWorld, walk: Seq<SourceUse>)
    requires
        is_walk(w, walk),
        walk.len() > 1,
    ensures
        is_walk(w, walk.drop_first()),
        parts(w, walk[0]).contains(walk[1]),
        walk.drop_first()[0] == walk[1],
        walk == seq![walk[0]] + walk.drop_first(),
{
    let rest = walk.drop_first();
    assert(parts(w, walk[0]).contains(walk[1]));
    assert forall|i: int| 0 <= i < rest.len() - 1 implies parts(w, #[trigger] rest[i]).contains(
        rest[i + 1],
    ) by {
        assert(parts(w, walk[i + 1]).contains(walk[i + 1 + 1]));
    }
    assert(walk =~= seq![walk[0]] + rest);
}

/// A walk from an accepted use ends well.
proof fn lemma_accepted_walk(
    w: ClosedWorld,
    owner: DeclarationId,
    path: Seq<char>,
    aliases: Seq<DeclarationId>,
    records: Seq<DeclarationId>,
    walk: Seq<SourceUse>,
)
    requires
        w.selected().finite(),
        is_walk(w, walk),
        accepted_at(w, owner, path, walk[0], aliases, records),
    ensures
        ends_well(w, aliases, records, walk),
    decreases walk.len(),
{
    lemma_parts(w, owner, path, walk[0], aliases, records);
    if walk.len() == 1 {
        assert(walk.drop_last() =~= seq![]);
        assert(aliases + aliases_along(w, walk.drop_last()) =~= aliases);
        assert(records + records_along(w, walk.drop_last()) =~= records);
    } else {
        let rest = walk.drop_first();
        let below_aliases = aliases + opens_alias(w, walk[0]);
        let below_records = records + enters_record(w, walk[0]);
        lemma_walk_rest(w, walk);
        let i = choose|i: int| 0 <= i < parts(w, walk[0]).len() && parts(w, walk[0])[i] == rest[0];
        lemma_accepted_walk(
            w,
            part_owner(w, owner, walk[0]),
            part_path(path, walk[0], i),
            below_aliases,
            below_records,
            rest,
        );
        lemma_along(w, walk[0], rest);
        assert(aliases + aliases_along(w, walk.drop_last()) =~= below_aliases + aliases_along(
            w,
            rest.drop_last(),
        ));
        assert(records + records_along(w, walk.drop_last()) =~= below_records + records_along(
            w,
            rest.drop_last(),
        ));
    }
}

/// A use from which every walk ends well is accepted.
proof fn lemma_walks_accepted(
    w: ClosedWorld,
    owner: DeclarationId,
    path: Seq<char>,
    site: SourceUse,
    aliases: Seq<DeclarationId>,
    records: Seq<DeclarationId>,
)
    requires
        w.selected().finite(),
        forall|walk: Seq<SourceUse>| #[trigger]
            is_walk(w, walk) && walk[0] == site ==> ends_well(w, aliases, records, walk),
    ensures
        accepted_at(w, owner, path, site, aliases, records),
    decreases unopened(w, aliases, records), site.ty,
{
    let alone = seq![site];
    assert(is_walk(w, alone));
    assert(ends_well(w, aliases, records, alone));
    assert(alone.drop_last() =~= seq![]);
    assert(aliases + aliases_along(w, alone.drop_last()) =~= aliases);
    assert(records + records_along(w, alone.drop_last()) =~= records);
    assert(use_admitted(w, site, aliases, records));
    let below_aliases = aliases + opens_alias(w, site);
    let below_records = records + enters_record(w, site);
    assert forall|i: int| 0 <= i < parts(w, site).len() implies accepted_at(
        w,
        part_owner(w, owner, site),
        part_path(path, site, i),
        #[trigger] parts(w, site)[i],
        below_aliases,
        below_records,
    ) by {
        let part = parts(w, site)[i];
        assert forall|walk: Seq<SourceUse>| #[trigger]
            is_walk(w, walk) && walk[0] == part implies ends_well(
            w,
            below_aliases,
            below_records,
            walk,
        ) by {
            let longer = seq![site] + walk;
            assert forall|j: int| 0 <= j < longer.len() - 1 implies parts(
                w,
                #[trigger] longer[j],
            ).contains(longer[j + 1]) by {
                if j > 0 {
                    assert(parts(w, walk[j - 1]).contains(walk[j - 1 + 1]));
                }
            }
            assert(is_walk(w, longer));
            assert(ends_well(w, aliases, records, longer));
            lemma_along(w, site, walk);
            assert(aliases + aliases_along(w, longer.drop_last()) =~= below_aliases
                + aliases_along(w, walk.drop_last()));
            assert(records + records_along(w, longer.drop_last()) =~= below_records
                + records_along(w, walk.drop_last()));
        }
        match site.ty.kind {
            CTypeKind::AliasRef(target) => {
                assert(below_aliases =~= aliases.push(target));
                assert(below_records =~= records);
                lemma_unvisited_push(w.selected(), aliases, target);
            },
            CTypeKind::RecordRef(target) => {
                assert(below_aliases =~= aliases);
                assert(below_records =~= records.push(target));
                lemma_unvisited_push(w.selected(), records, target);
            },
            _ => {
                assert(below_aliases =~= aliases);
                assert(below_records =~= records);
            },
        }
        lemma_walks_accepted(
            w,
            part_owner(w, owner, site),
            part_path(path, site, i),
            part,
            below_aliases,
            below_records,
        );
    }
    lemma_parts(w, owner, path, site, aliases, records);
}

/// A use of a type is accepted, wherever it stands, exactly if every use that a
/// walk from it reaches is admitted.
pub proof fn law_type_accepted(
    w: ClosedWorld,
    owner: DeclarationId,
    path: Seq<char>,
    site: SourceUse,
    aliases: Seq<DeclarationId>,
    records: Seq<DeclarationId>,
)
    requires
        w.selected().finite(),
    ensures
        accepted_at(w, owner, path, site, aliases, records) <==> forall|walk: Seq<SourceUse>|
         #[trigger]
            is_walk(w, walk) && walk[0] == site ==> ends_well(w, aliases, records, walk),
{
    if accepted_at(w, owner, path, site, aliases, records) {
        assert forall|walk: Seq<SourceUse>| #[trigger]
            is_walk(w, walk) && walk[0] == site implies ends_well(w, aliases, records, walk) by {
            lemma_accepted_walk(w, owner, path, aliases, records, walk);
        }
    } else if forall|walk: Seq<SourceUse>| #[trigger]
        is_walk(w, walk) && walk[0] == site ==> ends_well(w, aliases, records, walk) {
        lemma_walks_accepted(w, owner, path, site, aliases, records);
    }
}

/// No walk from an accepted use looks through a type alias twice or enters a
/// record twice, or meets again what is open at the use.
pub proof fn law_nothing_is_opened_twice(
    w: ClosedWorld,
    owner: DeclarationId,
    path: Seq<char>,
    aliases: Seq<DeclarationId>,
    records: Seq<DeclarationId>,
    walk: Seq<SourceUse>,
)
    requires
        w.selected().finite(),
        is_walk(w, walk),
        accepted_at(w, owner, path, walk[0], aliases, records),
    ensures
        fresh(aliases, aliases_along(w, walk)),
        fresh(records, records_along(w, walk)),
    decreases walk.len(),
{
    lemma_parts(w, owner, path, walk[0], aliases, records);
    let rest = walk.drop_first();
    if walk.len() > 1 {
        lemma_walk_rest(w, walk);
        let i = choose|i: int| 0 <= i < parts(w, walk[0]).len() && parts(w, walk[0])[i] == rest[0];
        law_nothing_is_opened_twice(
            w,
            part_owner(w, owner, walk[0]),
            part_path(path, walk[0], i),
            aliases + opens_alias(w, walk[0]),
            records + enters_record(w, walk[0]),
            rest,
        );
    }
    lemma_fresh(aliases, opens_alias(w, walk[0]), aliases_along(w, rest));
    lemma_fresh(records, enters_record(w, walk[0]), records_along(w, rest));
}

/// Whether nothing is wrong with a type beside its shape.
pub open spec fn plain(ty: CType) -> bool {
    &&& ty.support is Supported
    &&& !ty.qualifiers.is_atomic
    &&& !ty.qualifiers.is_volatile
    &&& ty.nullability is Unspecified
}

/// A use of a type alias is judged as a use of its target at the same
/// position.
pub proof fn law_alias_use_is_target_use(
    w: ClosedWorld,
    owner: DeclarationId,
    path: Seq<char>,
    ty: CType,
    position: TypePosition,
    alias: DeclarationId,
    aliases: Seq<DeclarationId>,
    records: Seq<DeclarationId>,
)
    requires
        w.selected().finite(),
        plain(ty),
        ty.kind == CTypeKind::AliasRef(alias),
        w.selected().contains(alias),
        w.alias_target(alias) is Some,
        !aliases.contains(alias),
    ensures
        type_outcome(w, owner, path, ty, position, aliases, records) == type_outcome(
            w,
            owner,
            path + ".alias_target"@,
            w.alias_target(alias)->0,
            position,
            aliases.push(alias),
            records,
        ),
{
}

/// Naming an opaque record is not using one: the declaration of a type alias
/// of an opaque record is accepted, a use of that alias is accepted exactly
/// where a record is only named, and any other use of it is refused as a use
/// of an opaque record.
pub proof fn law_alias_of_opaque_record(
    w: ClosedWorld,
    owner: DeclarationId,
    path: Seq<char>,
    ty: CType,
    position: TypePosition,
    alias: DeclarationId,
    record: DeclarationId,
)
    requires
        w.selected().finite(),
        plain(ty),
        ty.kind == CTypeKind::AliasRef(alias),
        w.selected().contains(alias),
        w.alias_target(alias) matches Some(target) && plain(target) && target.kind
            == CTypeKind::RecordRef(record),
        w.selected().contains(record),
        w.record(record) is Some,
        !(w.requirements[record] is Definition),
    ensures
        body_verdict(w, alias) is Ok,
        merely_named(position) ==> type_outcome(
            w,
            owner,
            path,
            ty,
            position,
            Seq::empty(),
            Seq::empty(),
        ) is Accepted,
        !merely_named(position) ==> type_outcome(
            w,
            owner,
            path,
            ty,
            position,
            Seq::empty(),
            Seq::empty(),
        ).verdict() == Verdict::Err(
            Refusal::UnsupportedType {
                declaration: owner,
                path: path + ".alias_target"@,
                reason: "opaque record is used by value"@,
            },
        ),
{
    law_alias_use_is_target_use(
        w,
        owner,
        path,
        ty,
        position,
        alias,
        Seq::empty(),
        Seq::empty(),
    );
}

} // verus!

//! How the pass over C declarations answers: which refusal each broken rule
//! gives, and how the answer for a whole follows from the answers for its
//! parts.
use vstd::prelude::*;

use crate::error::{Refusal, Verdict};
use crate::lookup_laws::{
    declares, declares_nothing, law_absent_declaration_is_not_found, law_first_declaration_is_found,
    law_layout_is_found, strictly_increasing,
};
use crate::position::TypePosition;
use crate::request::ClosureRequirement;
use crate::source::{
    ArrayBound, CFunctionType, CType, CTypeKind, CallingConvention, DeclarationId,
    FunctionPrototype, SourceDeclaration, SourceDeclarationKind, SourceRecord, TypeQualifiers,
};
use crate::source_laws::{
    accepted_at, all_understood, field_admitted, lemma_callback_parameters, lemma_record_fields,
    merely_named, SourceUse,
};
use crate::source_rules::{
    alias_verdict, callback_parameters_outcome, convention_verdict, field_verdict, layout_verdict,
    lemma_callback_parameters_refused, lemma_record_fields_refused, lookup, metadata_verdict,
    record_fields_outcome, record_outcome, requirement_on, type_outcome, ClosedWorld, Outcome,
};
use crate::text::indexed;

verus! {

/// The answer that refuses the type at `path` within `owner`, and leaves no
/// record open.
pub open spec fn type_refused(owner: DeclarationId, path: Seq<char>, reason: Seq<char>) -> Outcome {
    Outcome::Refused {
        refusal: Refusal::UnsupportedType { declaration: owner, path, reason },
        left_open: seq![],
    }
}

/// The answer that refuses the declaration `owner`, and leaves no record open.
pub open spec fn declaration_refused(owner: DeclarationId, reason: Seq<char>) -> Outcome {
    Outcome::Refused {
        refusal: Refusal::UnsupportedDeclaration { declaration: owner, reason },
        left_open: seq![],
    }
}

/// An answer refuses exactly if its verdict does, with the same refusal. An
/// acceptance gives the open records back; a refusal leaves more open, if any.
pub proof fn law_answers(outcome: Outcome, records: Seq<DeclarationId>)
    ensures
        outcome is Accepted ==> outcome.verdict() == Verdict::Ok(()) && outcome.records_after(
            records,
        ) == records,
        outcome is Refused ==> outcome.verdict() == Verdict::Err(outcome->refusal)
            && outcome.records_after(records) == records + outcome->left_open,
{
}

/// Whether nothing that is said of a type beside its shape is refused.
pub open spec fn sound(ty: CType) -> bool {
    &&& ty.support is Supported
    &&& !ty.qualifiers.is_atomic
    &&& !ty.qualifiers.is_volatile
    &&& ty.nullability is Unspecified || ty.kind is Pointer || ty.kind is Function
}

/// What is said of a type beside its shape is refused before its shape is
/// looked at: missing support first, then `_Atomic`, then `volatile`, then
/// nullability of what is neither a pointer nor a function.
pub proof fn law_metadata_is_refused(
    w: ClosedWorld,
    owner: DeclarationId,
    path: Seq<char>,
    ty: CType,
    position: TypePosition,
    aliases: Seq<DeclarationId>,
    records: Seq<DeclarationId>,
)
    requires
        w.selected().finite(),
    ensures
        metadata_verdict(owner, path, ty) is Ok <==> sound(ty),
        !sound(ty) ==> type_outcome(w, owner, path, ty, position, aliases, records).verdict()
            == metadata_verdict(owner, path, ty),
        !(ty.support is Supported) ==> type_outcome(
            w,
            owner,
            path,
            ty,
            position,
            aliases,
            records,
        ) == type_refused(owner, path, "type support is not fully accepted"@),
        ty.support is Supported && ty.qualifiers.is_atomic ==> type_outcome(
            w,
            owner,
            path,
            ty,
            position,
            aliases,
            records,
        ) == type_refused(owner, path, "_Atomic semantics are not modeled"@),
        ty.support is Supported && !ty.qualifiers.is_atomic && ty.qualifiers.is_volatile
            ==> type_outcome(w, owner, path, ty, position, aliases, records) == type_refused(
            owner,
            path,
            "volatile semantics are not modeled"@,
        ),
        ty.support is Supported && !ty.qualifiers.is_atomic && !ty.qualifiers.is_volatile
            && !sound(ty) ==> type_outcome(w, owner, path, ty, position, aliases, records)
            == type_refused(owner, path, "nullability appears on a non-pointer type"@),
{
}

/// Truth values and numbers are accepted everywhere, `void` where it is
/// returned or pointed to; complex and unknown types are refused.
pub proof fn law_simple_types(
    w: ClosedWorld,
    owner: DeclarationId,
    path: Seq<char>,
    ty: CType,
    position: TypePosition,
    aliases: Seq<DeclarationId>,
    records: Seq<DeclarationId>,
)
    requires
        w.selected().finite(),
        sound(ty),
    ensures
        ({
            let outcome = type_outcome(w, owner, path, ty, position, aliases, records);
            &&& ty.kind is Bool || ty.kind is Integer || ty.kind is Floating ==> outcome is Accepted
            &&& ty.kind is Void && (position is Return || position is BehindPointer)
                ==> outcome is Accepted
            &&& ty.kind is Void && !(position is Return || position is BehindPointer) ==> outcome
                == type_refused(owner, path, "void appears in a value position"@)
            &&& ty.kind is Complex ==> outcome == type_refused(
                owner,
                path,
                "complex C types are explicitly rejected"@,
            )
            &&& ty.kind is Unsupported ==> outcome == type_refused(
                owner,
                path,
                "unsupported PARC type node entered the strict closure"@,
            )
        }),
{
}

/// A pointer is answered as what it points to.
pub proof fn law_pointers(
    w: ClosedWorld,
    owner: DeclarationId,
    path: Seq<char>,
    ty: CType,
    position: TypePosition,
    aliases: Seq<DeclarationId>,
    records: Seq<DeclarationId>,
)
    requires
        w.selected().finite(),
        sound(ty),
        ty.kind is Pointer,
    ensures
        type_outcome(w, owner, path, ty, position, aliases, records) == type_outcome(
            w,
            owner,
            path + ".pointee"@,
            *ty.kind->Pointer_0,
            TypePosition::BehindPointer,
            aliases,
            records,
        ),
{
}

/// Whether a bound fits a position: a number of elements other than zero
/// everywhere, a flexible bound by value and in a parameter, and a missing or a
/// least bound in a parameter alone.
pub open spec fn bound_fits(bound: ArrayBound, position: TypePosition) -> bool {
    ||| bound is Fixed && bound->elements > 0
    ||| bound is Flexible && position is ByValue
    ||| position is Parameter && !(bound is Fixed)
}

/// An array is refused for qualifiers that only a parameter has, then for its
/// bound, and is else answered as its elements: behind a pointer if it is a
/// parameter, by value if it is not.
pub proof fn law_arrays(
    w: ClosedWorld,
    owner: DeclarationId,
    path: Seq<char>,
    ty: CType,
    position: TypePosition,
    aliases: Seq<DeclarationId>,
    records: Seq<DeclarationId>,
    element: CType,
    bound: ArrayBound,
    extra: TypeQualifiers,
)
    requires
        w.selected().finite(),
        sound(ty),
        ty.kind == (CTypeKind::Array {
            element: Box::new(element),
            bound,
            parameter_qualifiers: extra,
        }),
    ensures
        ({
            let outcome = type_outcome(w, owner, path, ty, position, aliases, records);
            let misplaced = !(position is Parameter) && (extra.is_const || extra.is_volatile
                || extra.is_restrict || extra.is_atomic);
            &&& misplaced ==> outcome == type_refused(
                owner,
                path,
                "parameter-only array qualifiers appear outside a parameter"@,
            )
            &&& !misplaced && !bound_fits(bound, position) ==> outcome == type_refused(
                owner,
                path,
                "array bound has no certified Rust ABI representation"@,
            )
            &&& !misplaced && bound_fits(bound, position) && position is Parameter ==> outcome
                == type_outcome(
                w,
                owner,
                path + ".element"@,
                element,
                TypePosition::BehindPointer,
                aliases,
                records,
            )
            &&& !misplaced && bound_fits(bound, position) && !(position is Parameter) ==> outcome
                == type_outcome(
                w,
                owner,
                path + ".element"@,
                element,
                TypePosition::ByValue,
                aliases,
                records,
            )
        }),
{
}

/// A calling convention is refused, with its reason and in the name of the
/// declaration that uses it, exactly if it has no Rust ABI.
pub proof fn law_conventions(owner: DeclarationId, convention: CallingConvention)
    ensures
        convention is Lowered ==> convention_verdict(owner, convention) == Verdict::Ok(()),
        convention matches CallingConvention::Refused { reason } ==> convention_verdict(
            owner,
            convention,
        ) == Verdict::Err(Refusal::UnsupportedDeclaration { declaration: owner, reason: reason@ }),
{
}

/// A function type is refused where it is neither pointed to nor a parameter,
/// then for its calling convention, then if its parameters are not all given.
/// It is else answered as its return type if that is refused, then as the first
/// of its parameters that is, and is accepted if none is.
pub proof fn law_function_types(
    w: ClosedWorld,
    owner: DeclarationId,
    path: Seq<char>,
    ty: CType,
    position: TypePosition,
    aliases: Seq<DeclarationId>,
    records: Seq<DeclarationId>,
    function: CFunctionType,
    index: int,
)
    requires
        w.selected().finite(),
        sound(ty),
        ty.kind == CTypeKind::Function(function),
    ensures
        ({
            let outcome = type_outcome(w, owner, path, ty, position, aliases, records);
            let placed = position is BehindPointer || position is Parameter;
            let given = function.prototype == (FunctionPrototype::Prototyped { variadic: false });
            let returned = type_outcome(
                w,
                owner,
                path + ".return_type"@,
                *function.return_type,
                TypePosition::Return,
                aliases,
                records,
            );
            let parameter = |i: int|
                type_outcome(
                    w,
                    owner,
                    indexed(path, ".parameters"@, i as nat),
                    function.parameters@[i].ty,
                    TypePosition::Parameter,
                    aliases,
                    records,
                );
            &&& !placed ==> outcome == type_refused(
                owner,
                path,
                "bare function type appears outside pointer/parameter adjustment"@,
            )
            &&& placed ==> (function.calling_convention matches CallingConvention::Refused {
                reason,
            } ==> outcome == declaration_refused(owner, reason@))
            &&& placed && function.calling_convention is Lowered && !given ==> outcome
                == type_refused(
                owner,
                path,
                "variadic or unspecified callbacks are explicitly rejected"@,
            )
            &&& placed && function.calling_convention is Lowered && given ==> {
                &&& returned is Refused ==> outcome == returned
                &&& returned is Accepted && 0 <= index < function.parameters@.len() && parameter(
                    index,
                ) is Refused && (forall|i: int|
                    0 <= i < index ==> #[trigger] parameter(i) is Accepted) ==> outcome
                    == parameter(index)
                &&& returned is Accepted && (forall|i: int|
                    0 <= i < function.parameters@.len() ==> #[trigger] parameter(i) is Accepted)
                    ==> outcome is Accepted
            }
        }),
{
    let parameters = function.parameters@;
    let parameter = |i: int|
        type_outcome(
            w,
            owner,
            indexed(path, ".parameters"@, i as nat),
            parameters[i].ty,
            TypePosition::Parameter,
            aliases,
            records,
        );
    if forall|i: int| 0 <= i < parameters.len() ==> #[trigger] parameter(i) is Accepted {
        lemma_callback_parameters(w, owner, path, parameters, parameters.len(), aliases, records);
        assert forall|i: int| 0 <= i < parameters.len() implies accepted_at(
            w,
            owner,
            indexed(path, ".parameters"@, i as nat),
            SourceUse { ty: (#[trigger] parameters[i]).ty, position: TypePosition::Parameter },
            aliases,
            records,
        ) by {
            assert(parameter(i) is Accepted);
        }
    }
    if 0 <= index < parameters.len() && parameter(index) is Refused && forall|i: int|
        0 <= i < index ==> #[trigger] parameter(i) is Accepted {
        lemma_callback_parameters(w, owner, path, parameters, index as nat, aliases, records);
        assert forall|i: int| 0 <= i < index implies accepted_at(
            w,
            owner,
            indexed(path, ".parameters"@, i as nat),
            SourceUse { ty: (#[trigger] parameters[i]).ty, position: TypePosition::Parameter },
            aliases,
            records,
        ) by {
            assert(parameter(i) is Accepted);
        }
        let next = (index + 1) as nat;
        assert(callback_parameters_outcome(w, owner, path, parameters, next, aliases, records)
            == parameter(index));
        lemma_callback_parameters_refused(
            w,
            owner,
            path,
            parameters,
            next,
            parameters.len(),
            aliases,
            records,
        );
    }
}

/// What is referred to is refused if it is not selected, and missing if it is
/// selected and not declared; else the first declaration with the identifier is
/// found.
pub proof fn law_references(
    w: ClosedWorld,
    owner: DeclarationId,
    target: DeclarationId,
    index: int,
)
    ensures
        !w.requirements.contains_key(target) ==> lookup(w, owner, target) == Err::<
            SourceDeclaration,
            _,
        >(
            Refusal::UnsupportedType {
                declaration: owner,
                path: "declaration_graph"@,
                reason: "named type reference escapes the selected closed world"@,
            },
        ),
        w.requirements.contains_key(target) && declares_nothing(w.source, target) ==> lookup(
            w,
            owner,
            target,
        ) == Err::<SourceDeclaration, _>(Refusal::MissingDeclaration { declaration: target }),
        w.requirements.contains_key(target) && declares(w.source, target, index) ==> lookup(
            w,
            owner,
            target,
        ) == Ok::<_, Refusal>(w.source.declarations@[index]),
{
    law_absent_declaration_is_not_found(w.source, target);
    if declares(w.source, target, index) {
        law_first_declaration_is_found(w.source, target, index);
    }
}

/// How much of a declaration is needed is what the selection says of it; of
/// what is not selected nothing is said.
pub proof fn law_requirements(w: ClosedWorld, owner: DeclarationId, target: DeclarationId)
    ensures
        w.requirements.contains_key(target) ==> requirement_on(w, owner, target) == Ok::<
            _,
            Refusal,
        >(w.requirements[target]),
        !w.requirements.contains_key(target) ==> requirement_on(w, owner, target) == Err::<
            ClosureRequirement,
            _,
        >(
            Refusal::UnsupportedType {
                declaration: owner,
                path: "declaration_graph"@,
                reason: "declaration requirement is absent from the selected closed world"@,
            },
        ),
{
}

/// A type alias is opened exactly if it is not open.
pub proof fn law_open_aliases(
    owner: DeclarationId,
    alias: DeclarationId,
    stack: Seq<DeclarationId>,
)
    ensures
        (forall|i: int| 0 <= i < stack.len() ==> stack[i] != alias) ==> alias_verdict(
            owner,
            alias,
            stack,
        ) == Verdict::Ok(()),
        (exists|i: int| 0 <= i < stack.len() && stack[i] == alias) ==> alias_verdict(
            owner,
            alias,
            stack,
        ) == Verdict::Err(
            Refusal::UnsupportedType {
                declaration: owner,
                path: "alias_graph"@,
                reason: "type-alias cycle detected"@,
            },
        ),
{
}

/// A reference that does not lead to a declaration is refused as such, whatever
/// kind of declaration it asks for.
pub proof fn law_broken_references(
    w: ClosedWorld,
    owner: DeclarationId,
    path: Seq<char>,
    ty: CType,
    position: TypePosition,
    aliases: Seq<DeclarationId>,
    records: Seq<DeclarationId>,
    target: DeclarationId,
)
    requires
        w.selected().finite(),
        sound(ty),
        ty.kind == CTypeKind::AliasRef(target) || ty.kind == CTypeKind::RecordRef(target)
            || ty.kind == CTypeKind::EnumRef(target),
    ensures
        !w.requirements.contains_key(target) ==> type_outcome(
            w,
            owner,
            path,
            ty,
            position,
            aliases,
            records,
        ) == type_refused(
            owner,
            "declaration_graph"@,
            "named type reference escapes the selected closed world"@,
        ),
        w.requirements.contains_key(target) && declares_nothing(w.source, target) ==> type_outcome(
            w,
            owner,
            path,
            ty,
            position,
            aliases,
            records,
        ) == (Outcome::Refused {
            refusal: Refusal::MissingDeclaration { declaration: target },
            left_open: seq![],
        }),
{
    law_absent_declaration_is_not_found(w.source, target);
}

/// A reference to a type alias is refused if it leads to something else or to
/// an alias that is open, and is else answered as the target of the alias, at
/// the same position.
pub proof fn law_alias_references(
    w: ClosedWorld,
    owner: DeclarationId,
    path: Seq<char>,
    ty: CType,
    position: TypePosition,
    aliases: Seq<DeclarationId>,
    records: Seq<DeclarationId>,
    target: DeclarationId,
    index: int,
)
    requires
        w.selected().finite(),
        sound(ty),
        ty.kind == CTypeKind::AliasRef(target),
        w.requirements.contains_key(target),
        declares(w.source, target, index),
    ensures
        match w.source.declarations@[index].kind {
            SourceDeclarationKind::TypeAlias(alias) => {
                &&& aliases.contains(target) ==> type_outcome(
                    w,
                    owner,
                    path,
                    ty,
                    position,
                    aliases,
                    records,
                ) == type_refused(owner, "alias_graph"@, "type-alias cycle detected"@)
                &&& !aliases.contains(target) ==> type_outcome(
                    w,
                    owner,
                    path,
                    ty,
                    position,
                    aliases,
                    records,
                ) == type_outcome(
                    w,
                    owner,
                    path + ".alias_target"@,
                    alias.target,
                    position,
                    aliases.push(target),
                    records,
                )
            },
            _ => type_outcome(w, owner, path, ty, position, aliases, records) == type_refused(
                owner,
                path,
                "AliasRef does not reference a type-alias declaration"@,
            ),
        },
{
    law_first_declaration_is_found(w.source, target, index);
}

/// A reference to a record is refused if it leads to something else. It is
/// accepted where the record is merely named, is refused elsewhere if only the
/// name of the record is needed, and is else answered as the record.
pub proof fn law_record_references(
    w: ClosedWorld,
    owner: DeclarationId,
    path: Seq<char>,
    ty: CType,
    position: TypePosition,
    aliases: Seq<DeclarationId>,
    records: Seq<DeclarationId>,
    target: DeclarationId,
    index: int,
)
    requires
        w.selected().finite(),
        sound(ty),
        ty.kind == CTypeKind::RecordRef(target),
        w.requirements.contains_key(target),
        declares(w.source, target, index),
    ensures
        ({
            let outcome = type_outcome(w, owner, path, ty, position, aliases, records);
            match w.source.declarations@[index].kind {
                SourceDeclarationKind::Record(record) => {
                    &&& merely_named(position) ==> outcome is Accepted
                    &&& !merely_named(position) && w.requirements[target] is Name ==> outcome
                        == type_refused(owner, path, "opaque record is used by value"@)
                    &&& !merely_named(position) && w.requirements[target] is Definition ==> outcome
                        == record_outcome(w, target, record, aliases, records)
                },
                _ => outcome == type_refused(
                    owner,
                    path,
                    "RecordRef does not reference a record declaration"@,
                ),
            }
        }),
{
    law_first_declaration_is_found(w.source, target, index);
}

/// A reference to an enum is refused if it leads to something else, and is else
/// answered as the layout of the enum.
pub proof fn law_enum_references(
    w: ClosedWorld,
    owner: DeclarationId,
    path: Seq<char>,
    ty: CType,
    position: TypePosition,
    aliases: Seq<DeclarationId>,
    records: Seq<DeclarationId>,
    target: DeclarationId,
    index: int,
)
    requires
        w.selected().finite(),
        sound(ty),
        ty.kind == CTypeKind::EnumRef(target),
        w.requirements.contains_key(target),
        declares(w.source, target, index),
    ensures
        ({
            let outcome = type_outcome(w, owner, path, ty, position, aliases, records);
            let is_enum = w.source.declarations@[index].kind is Enum;
            &&& !is_enum ==> outcome == type_refused(
                owner,
                path,
                "EnumRef does not reference an enum declaration"@,
            )
            &&& is_enum ==> match layout_verdict(w, target, false) {
                Ok(_) => outcome is Accepted,
                Err(refusal) => outcome == (Outcome::Refused { refusal, left_open: seq![] }),
            }
        }),
{
    law_first_declaration_is_found(w.source, target, index);
}

/// A layout is missing exactly if none names the declaration.
pub proof fn law_missing_layouts(w: ClosedWorld, id: DeclarationId, record: bool)
    ensures
        layout_verdict(w, id, record) == Verdict::Err(
            Refusal::MissingLayoutEvidence { declaration: id },
        ) <==> forall|i: int|
            0 <= i < w.evidence.layouts@.len() ==> (#[trigger] w.evidence.layouts@[i]).declaration
                != id,
{
}

/// A layout passes if it was measured for a declaration of the kind asked for,
/// for this source and this target, and is refused if it was not.
pub proof fn law_layouts(w: ClosedWorld, index: int, record: bool)
    requires
        strictly_increasing(w.evidence),
        0 <= index < w.evidence.layouts@.len(),
    ensures
        ({
            let layout = w.evidence.layouts@[index];
            let current = layout.source_fingerprint == w.source.fingerprint
                && layout.target_fingerprint == w.source.target_fingerprint;
            let fitting = if record {
                layout.kind is Record
            } else {
                layout.kind is Enum
            };
            layout_verdict(w, layout.declaration, record) == if current && fitting {
                Verdict::Ok(())
            } else {
                Verdict::Err(
                    Refusal::LayoutMismatch {
                        declaration: layout.declaration,
                        reason: "layout kind or source/target fingerprint is stale"@,
                    },
                )
            }
        }),
{
    law_layout_is_found(w.evidence, index);
}

/// A record is refused for its own sake if it is not defined, then for its
/// layout, then if it has no fields, then if it is open.
pub proof fn law_records(
    w: ClosedWorld,
    owner: DeclarationId,
    record: SourceRecord,
    aliases: Seq<DeclarationId>,
    records: Seq<DeclarationId>,
)
    requires
        w.selected().finite(),
    ensures
        ({
            let outcome = record_outcome(w, owner, record, aliases, records);
            let layout = layout_verdict(w, owner, true);
            &&& record.completeness is Incomplete ==> outcome == declaration_refused(
                owner,
                "by-value record is incomplete or opaque"@,
            )
            &&& record.completeness is Complete ==> (layout matches Err(refusal) ==> outcome == (
            Outcome::Refused { refusal, left_open: seq![] }))
            &&& record.completeness is Complete && layout is Ok && record.fields@.len() == 0
                ==> outcome == declaration_refused(
                owner,
                "empty C records are extension-dependent"@,
            )
            &&& record.completeness is Complete && layout is Ok && record.fields@.len() > 0
                && records.contains(owner) ==> outcome == declaration_refused(
                owner,
                "by-value record dependency cycle detected"@,
            )
        }),
{
}

/// A record that may be opened is answered as the first of its fields that is
/// refused, and is accepted if none is. A field is refused for its own sake if
/// it is not understood, then if it is a bitfield, then if it is a flexible
/// array out of place, and the record is closed again; it is else answered as
/// its type, and a refusal leaves the record open.
pub proof fn law_record_fields(
    w: ClosedWorld,
    owner: DeclarationId,
    record: SourceRecord,
    aliases: Seq<DeclarationId>,
    records: Seq<DeclarationId>,
    index: int,
)
    requires
        w.selected().finite(),
        record.completeness is Complete,
        layout_verdict(w, owner, true) is Ok,
        !records.contains(owner),
        0 <= index < record.fields@.len(),
    ensures
        ({
            let outcome = record_outcome(w, owner, record, aliases, records);
            let of_type = |i: int|
                type_outcome(
                    w,
                    owner,
                    indexed("record"@, ".fields"@, i as nat),
                    record.fields@[i].ty,
                    TypePosition::ByValue,
                    aliases,
                    records.push(owner),
                );
            let field = record.fields@[index];
            let understood = field.support is Supported && all_understood(field.attributes@);
            let first = forall|i: int|
                0 <= i < index ==> field_admitted(record, record.fields@[i], i)
                    && #[trigger] of_type(i) is Accepted;
            &&& first && !understood ==> outcome == declaration_refused(
                owner,
                "record field is not fully supported"@,
            )
            &&& first && understood && field.bit_width is Some ==> outcome == declaration_refused(
                owner,
                "bitfields are explicitly rejected"@,
            )
            &&& first && understood && field.bit_width is None && !field_admitted(
                record,
                field,
                index,
            ) ==> outcome == declaration_refused(
                owner,
                "a flexible array is legal only as the final struct field"@,
            )
            &&& first && field_admitted(record, field, index) && of_type(index) is Refused
                ==> outcome == (Outcome::Refused {
                refusal: of_type(index)->refusal,
                left_open: seq![owner] + of_type(index)->left_open,
            })
            &&& (forall|i: int|
                0 <= i < record.fields@.len() ==> field_admitted(record, record.fields@[i], i)
                    && #[trigger] of_type(i) is Accepted) ==> outcome is Accepted
        }),
{
    let opened = records.push(owner);
    let fields = record.fields@;
    let of_type = |i: int|
        type_outcome(
            w,
            owner,
            indexed("record"@, ".fields"@, i as nat),
            fields[i].ty,
            TypePosition::ByValue,
            aliases,
            opened,
        );
    if forall|i: int|
        0 <= i < fields.len() ==> field_admitted(record, fields[i], i) && #[trigger] of_type(i)
            is Accepted {
        assert forall|i: int| 0 <= i < fields.len() implies field_admitted(
            record,
            #[trigger] fields[i],
            i,
        ) && accepted_at(
            w,
            owner,
            indexed("record"@, ".fields"@, i as nat),
            SourceUse { ty: fields[i].ty, position: TypePosition::ByValue },
            aliases,
            opened,
        ) by {
            assert(of_type(i) is Accepted);
        }
        lemma_record_fields(w, owner, record, fields.len(), aliases, opened);
    }
    if forall|i: int|
        0 <= i < index ==> field_admitted(record, fields[i], i) && #[trigger] of_type(i)
            is Accepted {
        assert forall|i: int| 0 <= i < index implies field_admitted(
            record,
            #[trigger] fields[i],
            i,
        ) && accepted_at(
            w,
            owner,
            indexed("record"@, ".fields"@, i as nat),
            SourceUse { ty: fields[i].ty, position: TypePosition::ByValue },
            aliases,
            opened,
        ) by {
            assert(of_type(i) is Accepted);
        }
        lemma_record_fields(w, owner, record, index as nat, aliases, opened);
        let next = (index + 1) as nat;
        assert(field_verdict(owner, record, index) is Ok <==> field_admitted(
            record,
            fields[index],
            index,
        ));
        if record_fields_outcome(w, owner, record, next, aliases, opened) is Refused {
            lemma_record_fields_refused(w, owner, record, next, fields.len(), aliases, opened);
        }
    }
}

} // verus!

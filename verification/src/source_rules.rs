//! What the declarations of a closed source world owe, and how a broken rule
//! is reported.
use vstd::prelude::*;

use crate::error::{Refusal, Verdict};
use crate::evidence::{LinkAnalysis, ProviderAssessment, SymbolAssessment};
use crate::position::{admits_void, names_only, TypePosition};
use crate::request::{ClosureEntry, ClosureRequirement};
use crate::source::{
    ArrayBound, CParameter, CType, CTypeKind, CallingConvention, DeclarationId, SourceAttribute,
    SourceDeclaration, SourceDeclarationKind, SourceEnum, SourceEnumVariant, SourceFunction,
    SourceOccurrence, SourcePackage, SourceParameter, SourceRecord,
};
use crate::stack::{lemma_unvisited_push, unvisited};
use crate::text::indexed;

verus! {

/// The selected declarations of a source package, how much of each is needed,
/// and the evidence gathered for them.
pub struct ClosedWorld {
    pub source: SourcePackage,
    pub evidence: LinkAnalysis,
    pub requirements: Map<DeclarationId, ClosureRequirement>,
}

impl ClosedWorld {
    /// The selected declarations.
    pub open spec fn selected(self) -> Set<DeclarationId> {
        self.requirements.dom()
    }

    /// The record that a selected declaration declares.
    pub open spec fn record(self, id: DeclarationId) -> Option<SourceRecord> {
        match self.source.declared(id) {
            Some(declaration) => match declaration.kind {
                SourceDeclarationKind::Record(record) => Some(record),
                _ => None,
            },
            None => None,
        }
    }

    /// The type that a selected declaration is an alias of.
    pub open spec fn alias_target(self, id: DeclarationId) -> Option<CType> {
        match self.source.declared(id) {
            Some(declaration) => match declaration.kind {
                SourceDeclarationKind::TypeAlias(alias) => Some(alias.target),
                _ => None,
            },
            None => None,
        }
    }
}

/// The refusal of a type.
pub open spec fn type_refusal(
    declaration: DeclarationId,
    path: Seq<char>,
    reason: Seq<char>,
) -> Refusal {
    Refusal::UnsupportedType { declaration, path, reason }
}

/// The refusal of a declaration.
pub open spec fn declaration_refusal(declaration: DeclarationId, reason: Seq<char>) -> Refusal {
    Refusal::UnsupportedDeclaration { declaration, reason }
}

/// What `owner` finds when it refers to the declaration `target`.
pub open spec fn lookup(
    w: ClosedWorld,
    owner: DeclarationId,
    target: DeclarationId,
) -> Result<SourceDeclaration, Refusal> {
    if !w.requirements.contains_key(target) {
        Err(
            type_refusal(
                owner,
                "declaration_graph"@,
                "named type reference escapes the selected closed world"@,
            ),
        )
    } else {
        match w.source.declared(target) {
            Some(declaration) => Ok(declaration),
            None => Err(Refusal::MissingDeclaration { declaration: target }),
        }
    }
}

/// How much of `target` is needed, as `owner` finds it.
pub open spec fn requirement_on(
    w: ClosedWorld,
    owner: DeclarationId,
    target: DeclarationId,
) -> Result<ClosureRequirement, Refusal> {
    if w.requirements.contains_key(target) {
        Ok(w.requirements[target])
    } else {
        Err(
            type_refusal(
                owner,
                "declaration_graph"@,
                "declaration requirement is absent from the selected closed world"@,
            ),
        )
    }
}

/// The verdict on the layout measured for a record (`record`) or an enum.
pub open spec fn layout_verdict(w: ClosedWorld, id: DeclarationId, record: bool) -> Verdict {
    match w.evidence.layout_of(id) {
        None => Err(Refusal::MissingLayoutEvidence { declaration: id }),
        Some(layout) => if (layout.kind is Record) != record || layout.source_fingerprint
            != w.source.fingerprint || layout.target_fingerprint != w.source.target_fingerprint {
            Err(
                Refusal::LayoutMismatch {
                    declaration: id,
                    reason: "layout kind or source/target fingerprint is stale"@,
                },
            )
        } else {
            Ok(())
        },
    }
}

/// The verdict on opening the type alias `alias` below those on `stack`.
pub open spec fn alias_verdict(
    owner: DeclarationId,
    alias: DeclarationId,
    stack: Seq<DeclarationId>,
) -> Verdict {
    if stack.contains(alias) {
        Err(type_refusal(owner, "alias_graph"@, "type-alias cycle detected"@))
    } else {
        Ok(())
    }
}

/// The verdict on a calling convention of `owner`.
pub open spec fn convention_verdict(
    owner: DeclarationId,
    convention: CallingConvention,
) -> Verdict {
    match convention {
        CallingConvention::Lowered => Ok(()),
        CallingConvention::Refused { reason } => Err(declaration_refusal(owner, reason@)),
    }
}

/// The verdict on what is said of a type beside its shape.
pub open spec fn metadata_verdict(owner: DeclarationId, path: Seq<char>, ty: CType) -> Verdict {
    if !(ty.support is Supported) {
        Err(type_refusal(owner, path, "type support is not fully accepted"@))
    } else if ty.qualifiers.is_atomic {
        Err(type_refusal(owner, path, "_Atomic semantics are not modeled"@))
    } else if ty.qualifiers.is_volatile {
        Err(type_refusal(owner, path, "volatile semantics are not modeled"@))
    } else if !(ty.nullability is Unspecified) && !(ty.kind is Pointer) && !(ty.kind is Function) {
        Err(type_refusal(owner, path, "nullability appears on a non-pointer type"@))
    } else {
        Ok(())
    }
}

/// Whether an array with this bound has a Rust representation at `position`.
pub open spec fn bound_admitted(bound: ArrayBound, position: TypePosition) -> bool {
    match bound {
        ArrayBound::Fixed { elements } => elements != 0,
        ArrayBound::Flexible => position is ByValue || position is Parameter,
        ArrayBound::Incomplete | ArrayBound::StaticMinimum => position is Parameter,
    }
}

/// Where the elements of an array at `position` stand: an array parameter is
/// a pointer to its elements.
pub open spec fn element_position(position: TypePosition) -> TypePosition {
    if position is Parameter {
        TypePosition::BehindPointer
    } else {
        TypePosition::ByValue
    }
}

/// The verdict on one use of a shape of type, whatever its parts are.
/// `aliases` are the type aliases that lead to the use.
pub open spec fn kind_verdict(
    w: ClosedWorld,
    owner: DeclarationId,
    path: Seq<char>,
    kind: CTypeKind,
    position: TypePosition,
    aliases: Seq<DeclarationId>,
) -> Verdict {
    match kind {
        CTypeKind::Void => if admits_void(position) {
            Ok(())
        } else {
            Err(type_refusal(owner, path, "void appears in a value position"@))
        },
        CTypeKind::Complex => Err(
            type_refusal(owner, path, "complex C types are explicitly rejected"@),
        ),
        CTypeKind::Array { bound, parameter_qualifiers, .. } => if !(
        parameter_qualifiers.unqualified()) && !(position is Parameter) {
            Err(
                type_refusal(
                    owner,
                    path,
                    "parameter-only array qualifiers appear outside a parameter"@,
                ),
            )
        } else if !bound_admitted(bound, position) {
            Err(
                type_refusal(
                    owner,
                    path,
                    "array bound has no certified Rust ABI representation"@,
                ),
            )
        } else {
            Ok(())
        },
        CTypeKind::Function(function) => if !(position is BehindPointer || position is Parameter) {
            Err(
                type_refusal(
                    owner,
                    path,
                    "bare function type appears outside pointer/parameter adjustment"@,
                ),
            )
        } else if convention_verdict(owner, function.calling_convention) is Err {
            convention_verdict(owner, function.calling_convention)
        } else if !function.prototype.fixed() {
            Err(
                type_refusal(
                    owner,
                    path,
                    "variadic or unspecified callbacks are explicitly rejected"@,
                ),
            )
        } else {
            Ok(())
        },
        CTypeKind::AliasRef(target) => match lookup(w, owner, target) {
            Err(refusal) => Err(refusal),
            Ok(declaration) => if !(declaration.kind is TypeAlias) {
                Err(
                    type_refusal(
                        owner,
                        path,
                        "AliasRef does not reference a type-alias declaration"@,
                    ),
                )
            } else {
                alias_verdict(owner, target, aliases)
            },
        },
        CTypeKind::RecordRef(target) => match lookup(w, owner, target) {
            Err(refusal) => Err(refusal),
            Ok(declaration) => if !(declaration.kind is Record) {
                Err(
                    type_refusal(
                        owner,
                        path,
                        "RecordRef does not reference a record declaration"@,
                    ),
                )
            } else if !names_only(position) && !(w.requirements[target] is Definition) {
                Err(type_refusal(owner, path, "opaque record is used by value"@))
            } else {
                Ok(())
            },
        },
        CTypeKind::EnumRef(target) => match lookup(w, owner, target) {
            Err(refusal) => Err(refusal),
            Ok(declaration) => if !(declaration.kind is Enum) {
                Err(
                    type_refusal(
                        owner,
                        path,
                        "EnumRef does not reference an enum declaration"@,
                    ),
                )
            } else {
                layout_verdict(w, target, false)
            },
        },
        CTypeKind::Unsupported => Err(
            type_refusal(
                owner,
                path,
                "unsupported PARC type node entered the strict closure"@,
            ),
        ),
        CTypeKind::Bool | CTypeKind::Integer | CTypeKind::Floating | CTypeKind::Pointer(_) => Ok(
            (),
        ),
    }
}

/// The verdict on one use of a type, whatever its parts are. `aliases` are the
/// type aliases that lead to the use.
pub open spec fn use_verdict(
    w: ClosedWorld,
    owner: DeclarationId,
    path: Seq<char>,
    ty: CType,
    position: TypePosition,
    aliases: Seq<DeclarationId>,
) -> Verdict {
    if metadata_verdict(owner, path, ty) is Err {
        metadata_verdict(owner, path, ty)
    } else {
        kind_verdict(w, owner, path, ty.kind, position, aliases)
    }
}

/// Whether an attribute bears on the ABI and is not understood.
pub open spec fn has_unsupported_attribute(attributes: Seq<SourceAttribute>) -> bool {
    exists|i: int|
        0 <= i < attributes.len() && (#[trigger] attributes[i]).disposition
            is UnsupportedAbiRelevant
}

/// The verdict on opening the record `owner` by value, below those on `stack`.
pub open spec fn record_entry_verdict(
    w: ClosedWorld,
    owner: DeclarationId,
    record: SourceRecord,
    stack: Seq<DeclarationId>,
) -> Verdict {
    if !(record.completeness is Complete) {
        Err(declaration_refusal(owner, "by-value record is incomplete or opaque"@))
    } else if layout_verdict(w, owner, true) is Err {
        layout_verdict(w, owner, true)
    } else if record.fields@.len() == 0 {
        Err(declaration_refusal(owner, "empty C records are extension-dependent"@))
    } else if stack.contains(owner) {
        Err(declaration_refusal(owner, "by-value record dependency cycle detected"@))
    } else {
        Ok(())
    }
}

/// Whether a type is a flexible array.
pub open spec fn is_flexible_array(ty: CType) -> bool {
    ty.kind matches CTypeKind::Array { bound, .. } && bound is Flexible
}

/// The verdict on a field of a record, whatever its type is made of.
pub open spec fn field_verdict(owner: DeclarationId, record: SourceRecord, index: int) -> Verdict {
    let field = record.fields@[index];
    if !(field.support is Supported) || has_unsupported_attribute(field.attributes@) {
        Err(declaration_refusal(owner, "record field is not fully supported"@))
    } else if field.bit_width is Some {
        Err(declaration_refusal(owner, "bitfields are explicitly rejected"@))
    } else if is_flexible_array(field.ty) && (!(record.kind is Struct) || index
        != record.fields@.len() - 1) {
        Err(
            declaration_refusal(
                owner,
                "a flexible array is legal only as the final struct field"@,
            ),
        )
    } else {
        Ok(())
    }
}

/// How a walk through types and records ends.
pub enum Outcome {
    Accepted,
    /// Refused, with the records that the walk had opened and leaves open.
    Refused { refusal: Refusal, left_open: Seq<DeclarationId> },
}

impl Outcome {
    /// The verdict of the walk.
    pub open spec fn verdict(self) -> Verdict {
        match self {
            Outcome::Accepted => Ok(()),
            Outcome::Refused { refusal, .. } => Err(refusal),
        }
    }

    /// The open records after the walk, from those before it.
    pub open spec fn records_after(self, records: Seq<DeclarationId>) -> Seq<DeclarationId> {
        match self {
            Outcome::Accepted => records,
            Outcome::Refused { left_open, .. } => records + left_open,
        }
    }

    /// The outcome of a walk through the parts of the record `id`, which a
    /// refusal leaves open too.
    pub open spec fn within(self, id: DeclarationId) -> Outcome {
        match self {
            Outcome::Accepted => Outcome::Accepted,
            Outcome::Refused { refusal, left_open } => Outcome::Refused {
                refusal,
                left_open: seq![id] + left_open,
            },
        }
    }
}

/// The outcome of a check that opens no record.
pub open spec fn checked(verdict: Verdict) -> Outcome {
    match verdict {
        Ok(_) => Outcome::Accepted,
        Err(refusal) => Outcome::Refused { refusal, left_open: Seq::empty() },
    }
}

/// How many selected declarations are not open as an alias, and how many are
/// not open as a record.
pub open spec fn unopened(
    w: ClosedWorld,
    aliases: Seq<DeclarationId>,
    records: Seq<DeclarationId>,
) -> nat {
    unvisited(w.selected(), aliases) + unvisited(w.selected(), records)
}

/// The outcome of a use of a type and of all that it is made of: the use
/// itself comes first, then its parts, a function's return type before its
/// parameters. A type alias is looked through, at the position at which it is
/// used, and a record that is used by value is entered.
pub open spec fn type_outcome(
    w: ClosedWorld,
    owner: DeclarationId,
    path: Seq<char>,
    ty: CType,
    position: TypePosition,
    aliases: Seq<DeclarationId>,
    records: Seq<DeclarationId>,
) -> Outcome
    decreases unopened(w, aliases, records), 1nat, ty, 0nat,
    when w.selected().finite()
{
    if use_verdict(w, owner, path, ty, position, aliases) is Err {
        checked(use_verdict(w, owner, path, ty, position, aliases))
    } else {
        match ty.kind {
            CTypeKind::Pointer(pointee) => type_outcome(
                w,
                owner,
                path + ".pointee"@,
                *pointee,
                TypePosition::BehindPointer,
                aliases,
                records,
            ),
            CTypeKind::Array { element, .. } => type_outcome(
                w,
                owner,
                path + ".element"@,
                *element,
                element_position(position),
                aliases,
                records,
            ),
            CTypeKind::Function(function) => {
                let returned = type_outcome(
                    w,
                    owner,
                    path + ".return_type"@,
                    *function.return_type,
                    TypePosition::Return,
                    aliases,
                    records,
                );
                if returned is Refused {
                    returned
                } else {
                    callback_parameters_outcome(
                        w,
                        owner,
                        path,
                        function.parameters@,
                        function.parameters@.len(),
                        aliases,
                        records,
                    )
                }
            },
            CTypeKind::AliasRef(target) => match w.alias_target(target) {
                Some(aliased) => {
                    proof {
                        lemma_unvisited_push(w.selected(), aliases, target);
                    }
                    type_outcome(
                        w,
                        owner,
                        path + ".alias_target"@,
                        aliased,
                        position,
                        aliases.push(target),
                        records,
                    )
                },
                None => Outcome::Accepted,
            },
            CTypeKind::RecordRef(target) => match w.record(target) {
                Some(record) => if names_only(position) {
                    Outcome::Accepted
                } else {
                    record_outcome(w, target, record, aliases, records)
                },
                None => Outcome::Accepted,
            },
            _ => Outcome::Accepted,
        }
    }
}

/// The outcome of the first `count` parameters of a function type.
pub open spec fn callback_parameters_outcome(
    w: ClosedWorld,
    owner: DeclarationId,
    path: Seq<char>,
    parameters: Seq<CParameter>,
    count: nat,
    aliases: Seq<DeclarationId>,
    records: Seq<DeclarationId>,
) -> Outcome
    decreases unopened(w, aliases, records), 1nat, parameters, count,
    when w.selected().finite() && count <= parameters.len()
{
    if count == 0 {
        Outcome::Accepted
    } else {
        let leading = callback_parameters_outcome(
            w,
            owner,
            path,
            parameters,
            (count - 1) as nat,
            aliases,
            records,
        );
        if leading is Refused {
            leading
        } else {
            type_outcome(
                w,
                owner,
                indexed(path, ".parameters"@, (count - 1) as nat),
                parameters[count - 1].ty,
                TypePosition::Parameter,
                aliases,
                records,
            )
        }
    }
}

/// The outcome of using the record `owner` by value.
pub open spec fn record_outcome(
    w: ClosedWorld,
    owner: DeclarationId,
    record: SourceRecord,
    aliases: Seq<DeclarationId>,
    records: Seq<DeclarationId>,
) -> Outcome
    decreases
            unopened(w, aliases, records) + if w.selected().contains(owner) {
                0nat
            } else {
                1nat
            },
            0nat,
            record,
            0nat,
    when w.selected().finite()
{
    if record_entry_verdict(w, owner, record, records) is Err {
        checked(record_entry_verdict(w, owner, record, records))
    } else {
        proof {
            lemma_unvisited_push(w.selected(), records, owner);
        }
        record_fields_outcome(
            w,
            owner,
            record,
            record.fields@.len(),
            aliases,
            records.push(owner),
        )
    }
}

/// The outcome of the first `count` fields of the record `owner`, which stands
/// last on `records`.
pub open spec fn record_fields_outcome(
    w: ClosedWorld,
    owner: DeclarationId,
    record: SourceRecord,
    count: nat,
    aliases: Seq<DeclarationId>,
    records: Seq<DeclarationId>,
) -> Outcome
    decreases unopened(w, aliases, records), 2nat, record, count,
    when w.selected().finite() && count <= record.fields@.len()
{
    if count == 0 {
        Outcome::Accepted
    } else {
        let leading = record_fields_outcome(
            w,
            owner,
            record,
            (count - 1) as nat,
            aliases,
            records,
        );
        if leading is Refused {
            leading
        } else if field_verdict(owner, record, count - 1) is Err {
            checked(field_verdict(owner, record, count - 1))
        } else {
            type_outcome(
                w,
                owner,
                indexed("record"@, ".fields"@, (count - 1) as nat),
                record.fields@[count - 1].ty,
                TypePosition::ByValue,
                aliases,
                records,
            ).within(owner)
        }
    }
}

/// A refused parameter decides the outcome of all of them.
pub proof fn lemma_callback_parameters_refused(
    w: ClosedWorld,
    owner: DeclarationId,
    path: Seq<char>,
    parameters: Seq<CParameter>,
    count: nat,
    total: nat,
    aliases: Seq<DeclarationId>,
    records: Seq<DeclarationId>,
)
    requires
        w.selected().finite(),
        count <= total <= parameters.len(),
        callback_parameters_outcome(w, owner, path, parameters, count, aliases, records)
            is Refused,
    ensures
        callback_parameters_outcome(w, owner, path, parameters, total, aliases, records)
            == callback_parameters_outcome(w, owner, path, parameters, count, aliases, records),
    decreases total,
{
    if count < total {
        lemma_callback_parameters_refused(
            w,
            owner,
            path,
            parameters,
            count,
            (total - 1) as nat,
            aliases,
            records,
        );
    }
}

/// A refused field decides the outcome of all of them.
pub proof fn lemma_record_fields_refused(
    w: ClosedWorld,
    owner: DeclarationId,
    record: SourceRecord,
    count: nat,
    total: nat,
    aliases: Seq<DeclarationId>,
    records: Seq<DeclarationId>,
)
    requires
        w.selected().finite(),
        count <= total <= record.fields@.len(),
        record_fields_outcome(w, owner, record, count, aliases, records) is Refused,
    ensures
        record_fields_outcome(w, owner, record, total, aliases, records) == record_fields_outcome(
            w,
            owner,
            record,
            count,
            aliases,
            records,
        ),
    decreases total,
{
    if count < total {
        lemma_record_fields_refused(
            w,
            owner,
            record,
            count,
            (total - 1) as nat,
            aliases,
            records,
        );
    }
}

/// The outcome of the first `count` parameters of the function `owner`.
pub open spec fn parameters_outcome(
    w: ClosedWorld,
    owner: DeclarationId,
    parameters: Seq<SourceParameter>,
    count: nat,
    aliases: Seq<DeclarationId>,
    records: Seq<DeclarationId>,
) -> Outcome
    decreases count,
{
    if count == 0 {
        Outcome::Accepted
    } else {
        let leading = parameters_outcome(
            w,
            owner,
            parameters,
            (count - 1) as nat,
            aliases,
            records,
        );
        if leading is Refused {
            leading
        } else {
            type_outcome(
                w,
                owner,
                indexed("function"@, ".parameters"@, parameters[count - 1].ordinal as nat),
                parameters[count - 1].ty,
                TypePosition::Parameter,
                aliases,
                records,
            )
        }
    }
}

/// A refused parameter decides the outcome of all of them.
pub proof fn lemma_parameters_refused(
    w: ClosedWorld,
    owner: DeclarationId,
    parameters: Seq<SourceParameter>,
    count: nat,
    total: nat,
    aliases: Seq<DeclarationId>,
    records: Seq<DeclarationId>,
)
    requires
        count <= total,
        parameters_outcome(w, owner, parameters, count, aliases, records) is Refused,
    ensures
        parameters_outcome(w, owner, parameters, total, aliases, records) == parameters_outcome(
            w,
            owner,
            parameters,
            count,
            aliases,
            records,
        ),
    decreases total,
{
    if count < total {
        lemma_parameters_refused(
            w,
            owner,
            parameters,
            count,
            (total - 1) as nat,
            aliases,
            records,
        );
    }
}

/// The verdict on the variant at `index` of the enum `owner`.
pub open spec fn variant_verdict(
    owner: DeclarationId,
    variants: Seq<SourceEnumVariant>,
    index: int,
) -> Verdict {
    if (exists|earlier: int|
        0 <= earlier < index && (#[trigger] variants[earlier]).id == variants[index].id) || !(
    variants[index].support is Supported) {
        Err(declaration_refusal(owner, "enum variants must be distinct and fully supported"@))
    } else if variants[index].value is Unevaluated {
        Err(declaration_refusal(owner, "enum values must be evaluated exactly"@))
    } else {
        Ok(())
    }
}

/// The verdict on the first `count` variants of the enum `owner`.
pub open spec fn variants_verdict(
    owner: DeclarationId,
    variants: Seq<SourceEnumVariant>,
    count: nat,
) -> Verdict
    decreases count,
{
    if count == 0 {
        Ok(())
    } else {
        let leading = variants_verdict(owner, variants, (count - 1) as nat);
        if leading is Err {
            leading
        } else {
            variant_verdict(owner, variants, count - 1)
        }
    }
}

/// A refused variant decides the verdict on all of them.
pub proof fn lemma_variants_refused(
    owner: DeclarationId,
    variants: Seq<SourceEnumVariant>,
    count: nat,
    total: nat,
)
    requires
        count <= total,
        variants_verdict(owner, variants, count) is Err,
    ensures
        variants_verdict(owner, variants, total) == variants_verdict(owner, variants, count),
    decreases total,
{
    if count < total {
        lemma_variants_refused(owner, variants, count, (total - 1) as nat);
    }
}

/// The verdict on a function declaration, whatever its types are.
pub open spec fn function_verdict(owner: DeclarationId, function: SourceFunction) -> Verdict {
    if convention_verdict(owner, function.calling_convention) is Err {
        convention_verdict(owner, function.calling_convention)
    } else if !function.prototype.fixed() {
        Err(
            declaration_refusal(
                owner,
                "variadic or unspecified function prototypes are outside the certified ABI"@,
            ),
        )
    } else {
        Ok(())
    }
}

/// The outcome of a function declaration.
pub open spec fn function_outcome(
    w: ClosedWorld,
    owner: DeclarationId,
    function: SourceFunction,
    aliases: Seq<DeclarationId>,
    records: Seq<DeclarationId>,
) -> Outcome {
    if function_verdict(owner, function) is Err {
        checked(function_verdict(owner, function))
    } else {
        let returned = type_outcome(
            w,
            owner,
            "function.return_type"@,
            function.return_type,
            TypePosition::Return,
            aliases,
            records,
        );
        if returned is Refused {
            returned
        } else {
            parameters_outcome(
                w,
                owner,
                function.parameters@,
                function.parameters@.len(),
                aliases,
                records,
            )
        }
    }
}

/// The outcome of an enum declaration.
pub open spec fn enum_outcome(
    w: ClosedWorld,
    owner: DeclarationId,
    enumeration: SourceEnum,
    aliases: Seq<DeclarationId>,
    records: Seq<DeclarationId>,
) -> Outcome {
    if layout_verdict(w, owner, false) is Err {
        checked(layout_verdict(w, owner, false))
    } else {
        let underlying = match enumeration.explicit_underlying_type {
            Some(underlying) => type_outcome(
                w,
                owner,
                "enum.explicit_underlying_type"@,
                underlying,
                TypePosition::ByValue,
                aliases,
                records,
            ),
            None => Outcome::Accepted,
        };
        if underlying is Refused {
            underlying
        } else {
            checked(
                variants_verdict(owner, enumeration.variants@, enumeration.variants@.len()),
            )
        }
    }
}

/// The outcome of a declaration.
pub open spec fn declaration_outcome(
    w: ClosedWorld,
    declaration: SourceDeclaration,
    aliases: Seq<DeclarationId>,
    records: Seq<DeclarationId>,
) -> Outcome {
    let id = declaration.id;
    match declaration.kind {
        SourceDeclarationKind::Function(function) => function_outcome(
            w,
            id,
            function,
            aliases,
            records,
        ),
        SourceDeclarationKind::Record(record) => match requirement_on(w, id, id) {
            Err(refusal) => checked(Err(refusal)),
            Ok(requirement) => if requirement is Definition {
                record_outcome(w, id, record, aliases, records)
            } else {
                Outcome::Accepted
            },
        },
        SourceDeclarationKind::Enum(enumeration) => enum_outcome(
            w,
            id,
            enumeration,
            aliases,
            records,
        ),
        SourceDeclarationKind::TypeAlias(alias) => if alias_verdict(id, id, aliases) is Err {
            checked(alias_verdict(id, id, aliases))
        } else {
            type_outcome(
                w,
                id,
                "type_alias.target"@,
                alias.target,
                TypePosition::AliasTarget,
                aliases.push(id),
                records,
            )
        },
        SourceDeclarationKind::Variable(variable) => if variable.thread_local {
            checked(
                Err(declaration_refusal(id, "thread-local globals are explicitly rejected"@)),
            )
        } else {
            type_outcome(
                w,
                id,
                "variable.type"@,
                variable.ty,
                TypePosition::ByValue,
                aliases,
                records,
            )
        },
        SourceDeclarationKind::Unsupported => checked(
            Err(
                declaration_refusal(
                    id,
                    "unsupported source declaration entered the strict closure"@,
                ),
            ),
        ),
    }
}

/// The verdict on the place at `index` where a declaration was written.
pub open spec fn occurrence_verdict(
    owner: DeclarationId,
    occurrences: Seq<SourceOccurrence>,
    index: int,
) -> Verdict {
    if exists|earlier: int|
        0 <= earlier < index && (#[trigger] occurrences[earlier]).id == occurrences[index].id {
        Err(declaration_refusal(owner, "reconciled declaration repeats a source occurrence"@))
    } else if has_unsupported_attribute(occurrences[index].attributes@) {
        Err(declaration_refusal(owner, "an ABI-relevant declaration attribute is unsupported"@))
    } else {
        Ok(())
    }
}

/// The verdict on the first `count` places where a declaration was written.
pub open spec fn occurrences_verdict(
    owner: DeclarationId,
    occurrences: Seq<SourceOccurrence>,
    count: nat,
) -> Verdict
    decreases count,
{
    if count == 0 {
        Ok(())
    } else {
        let leading = occurrences_verdict(owner, occurrences, (count - 1) as nat);
        if leading is Err {
            leading
        } else {
            occurrence_verdict(owner, occurrences, count - 1)
        }
    }
}

/// A refused occurrence decides the verdict on all of them.
pub proof fn lemma_occurrences_refused(
    owner: DeclarationId,
    occurrences: Seq<SourceOccurrence>,
    count: nat,
    total: nat,
)
    requires
        count <= total,
        occurrences_verdict(owner, occurrences, count) is Err,
    ensures
        occurrences_verdict(owner, occurrences, total) == occurrences_verdict(
            owner,
            occurrences,
            count,
        ),
    decreases total,
{
    if count < total {
        lemma_occurrences_refused(owner, occurrences, count, (total - 1) as nat);
    }
}

/// The verdict on how a declaration was reconciled.
pub open spec fn reconciled_verdict(declaration: SourceDeclaration) -> Verdict {
    if !(declaration.support is Supported) {
        Err(declaration_refusal(declaration.id, "PARC source support is not fully accepted"@))
    } else {
        occurrences_verdict(
            declaration.id,
            declaration.occurrences@,
            declaration.occurrences@.len(),
        )
    }
}

/// Whether a declaration is left to the linker to find.
pub open spec fn is_extern(declaration: SourceDeclaration) -> bool {
    &&& declaration.kind is Function || declaration.kind is Variable
    &&& declaration.linkage is External
}

/// The verdict on where the linker finds a declaration.
pub open spec fn provider_verdict(
    w: ClosedWorld,
    id: DeclarationId,
    provider: ProviderAssessment,
    symbol: SymbolAssessment,
) -> Verdict {
    match provider {
        ProviderAssessment::Unresolved => Err(
            declaration_refusal(id, "selected extern has no single resolved provider"@),
        ),
        ProviderAssessment::Resolved { provider } => if !(symbol matches SymbolAssessment::Exact {
            symbol: exact,
        } && exact.provider == provider) {
            Err(declaration_refusal(id, "selected extern has no exact provider-bound symbol"@))
        } else if !w.evidence.plans(provider) {
            Err(
                declaration_refusal(
                    id,
                    "selected extern provider is absent from the ordered link plan"@,
                ),
            )
        } else {
            Ok(())
        },
    }
}

/// The verdict on the link evidence for a declaration.
pub open spec fn evidence_verdict(w: ClosedWorld, declaration: SourceDeclaration) -> Verdict {
    match w.evidence.evidence_on(declaration.id) {
        None => Err(Refusal::MissingDeclarationEvidence { declaration: declaration.id }),
        Some(evidence) => if evidence.source_fingerprint != w.source.fingerprint {
            Err(Refusal::SourceFingerprintMismatch)
        } else if evidence.target_fingerprint != w.source.target_fingerprint {
            Err(Refusal::TargetFingerprintMismatch)
        } else if is_extern(declaration) {
            provider_verdict(w, declaration.id, evidence.provider, evidence.symbol)
        } else {
            Ok(())
        },
    }
}

/// The verdict on the selected declaration `id`, before its types are looked
/// at.
pub open spec fn admission_verdict(w: ClosedWorld, id: DeclarationId) -> Verdict {
    match lookup(w, id, id) {
        Err(refusal) => Err(refusal),
        Ok(declaration) => if reconciled_verdict(declaration) is Err {
            reconciled_verdict(declaration)
        } else {
            evidence_verdict(w, declaration)
        },
    }
}

/// The verdict on the types of the selected declaration `id`.
pub open spec fn body_verdict(w: ClosedWorld, id: DeclarationId) -> Verdict {
    match lookup(w, id, id) {
        Err(refusal) => Err(refusal),
        Ok(declaration) => declaration_outcome(
            w,
            declaration,
            Seq::empty(),
            Seq::empty(),
        ).verdict(),
    }
}

/// Whether `id` is the least declaration of `ids` that is refused.
pub open spec fn least_refused(
    ids: Set<DeclarationId>,
    verdict: spec_fn(DeclarationId) -> Verdict,
    id: DeclarationId,
) -> bool {
    &&& ids.contains(id)
    &&& verdict(id) is Err
    &&& forall|lesser: DeclarationId| #[trigger]
        ids.contains(lesser) && lesser < id ==> verdict(lesser) is Ok
}

/// The refusal of the least declaration of `ids` that is refused, if one is.
pub open spec fn first_refusal(
    ids: Set<DeclarationId>,
    verdict: spec_fn(DeclarationId) -> Verdict,
) -> Verdict {
    if exists|id: DeclarationId| least_refused(ids, verdict, id) {
        verdict(choose|id: DeclarationId| least_refused(ids, verdict, id))
    } else {
        Ok(())
    }
}

/// Whether `order` lists the declarations of `ids` in increasing order.
pub open spec fn in_order(ids: Set<DeclarationId>, order: Seq<DeclarationId>) -> bool {
    &&& order.to_set() == ids
    &&& forall|i: int, j: int| 0 <= i < j < order.len() ==> order[i] < order[j]
}

/// The first refusal in increasing order is that of the least declaration that
/// is refused.
pub proof fn lemma_first_refusal(
    ids: Set<DeclarationId>,
    verdict: spec_fn(DeclarationId) -> Verdict,
    order: Seq<DeclarationId>,
    index: int,
)
    requires
        in_order(ids, order),
        0 <= index <= order.len(),
        forall|earlier: int| 0 <= earlier < index ==> verdict(#[trigger] order[earlier]) is Ok,
        index < order.len() ==> verdict(order[index]) is Err,
    ensures
        first_refusal(ids, verdict) == if index < order.len() {
            verdict(order[index])
        } else {
            Ok(())
        },
{
    assert forall|id: DeclarationId| #[trigger] ids.contains(id) implies order.contains(id) by {
        assert(order.to_set().contains(id));
    }
    if index < order.len() {
        assert(order.to_set().contains(order[index]));
        assert forall|lesser: DeclarationId| #[trigger]
            ids.contains(lesser) && lesser < order[index] implies verdict(lesser) is Ok by {
            let at = choose|at: int| 0 <= at < order.len() && order[at] == lesser;
            assert(at < index);
        }
        assert(least_refused(ids, verdict, order[index]));
        let least = choose|id: DeclarationId| least_refused(ids, verdict, id);
        assert(least_refused(ids, verdict, least));
        assert(least == order[index]);
    } else {
        assert forall|id: DeclarationId| !least_refused(ids, verdict, id) by {
            if ids.contains(id) {
                let at = choose|at: int| 0 <= at < order.len() && order[at] == id;
                assert(verdict(order[at]) is Ok);
            }
        }
    }
}

/// The verdict on a closed world: every declaration is admitted before the
/// types of any are looked at.
pub open spec fn world_verdict(w: ClosedWorld) -> Verdict {
    let admitted = first_refusal(w.selected(), |id: DeclarationId| admission_verdict(w, id));
    if admitted is Err {
        admitted
    } else {
        first_refusal(w.selected(), |id: DeclarationId| body_verdict(w, id))
    }
}

/// What the first `count` entries of a closure need; of two entries for one
/// declaration the later counts.
pub open spec fn closure_map(entries: Seq<ClosureEntry>, count: nat) -> Map<
    DeclarationId,
    ClosureRequirement,
>
    decreases count,
{
    if count == 0 {
        Map::empty()
    } else {
        closure_map(entries, (count - 1) as nat).insert(
            entries[count - 1].declaration,
            entries[count - 1].requirement,
        )
    }
}

/// The verdict on whether evidence was gathered for a source package.
pub open spec fn binding_verdict(source: SourcePackage, evidence: LinkAnalysis) -> Verdict {
    if evidence.source_fingerprint != source.fingerprint {
        Err(Refusal::SourceFingerprintMismatch)
    } else if evidence.target_fingerprint != source.target_fingerprint {
        Err(Refusal::TargetFingerprintMismatch)
    } else {
        Ok(())
    }
}

/// The verdict on a generation request.
pub open spec fn request_verdict(
    source: SourcePackage,
    evidence: LinkAnalysis,
    closure: Seq<ClosureEntry>,
) -> Verdict {
    if binding_verdict(source, evidence) is Err {
        binding_verdict(source, evidence)
    } else {
        world_verdict(
            ClosedWorld { source, evidence, requirements: closure_map(closure, closure.len()) },
        )
    }
}

} // verus!

//! The pass over the selected C declarations, before any name is allocated or
//! any Rust is rendered.
use std::collections::{BTreeMap, BTreeSet};
use vstd::prelude::*;

use crate::error::{verdict_of, GenerationError, GenerationResult, Verdict};
use crate::evidence::{LayoutKind, ProviderAssessment, SymbolAssessment, ValidatedLinkAnalysis};
use crate::position::TypePosition;
use crate::request::{ClosureRequirement, GenerationRequest};
use crate::source::{
    ArrayBound, AttributeDisposition, CType, CTypeKind, CallingConvention, ChildId,
    CompleteSourcePackage, DeclarationId, EnumValue, Linkage, Nullability, OccurrenceId,
    RecordCompleteness, RecordKind, SourceAttribute, SourceDeclaration, SourceDeclarationKind,
    SourceEnum, SourceEnumVariant, SourceFunction, SourceRecord, TypeQualifiers,
};
use crate::source_rules::{
    admission_verdict, alias_verdict, binding_verdict, body_verdict, bound_admitted,
    callback_parameters_outcome, closure_map, convention_verdict, declaration_outcome,
    declaration_refusal, enum_outcome, evidence_verdict, first_refusal, function_outcome,
    has_unsupported_attribute, in_order, layout_verdict, lemma_callback_parameters_refused,
    lemma_first_refusal, lemma_occurrences_refused, lemma_parameters_refused,
    lemma_record_fields_refused, lemma_variants_refused, lookup, metadata_verdict,
    occurrences_verdict, parameters_outcome, reconciled_verdict, record_fields_outcome,
    record_outcome, request_verdict, requirement_on, type_outcome, type_refusal, unopened,
    variants_verdict, world_verdict, ClosedWorld,
};
use crate::stack::{lemma_unvisited_push, stack_contains};
use crate::text::{extend_path, index_path};

verus! {

/// The selected declarations of a request, with what verifying them needs.
pub struct SourceVerifier<'a> {
    pub source: &'a CompleteSourcePackage,
    pub evidence: &'a ValidatedLinkAnalysis,
    pub requirements: BTreeMap<DeclarationId, ClosureRequirement>,
}

impl<'a> View for SourceVerifier<'a> {
    type V = ClosedWorld;

    open spec fn view(&self) -> ClosedWorld {
        ClosedWorld {
            source: self.source.package,
            evidence: self.evidence.analysis(),
            requirements: self.requirements@,
        }
    }
}

/// Refuses a calling convention that has no Rust ABI on the target.
pub fn lower_calling_convention(
    declaration: DeclarationId,
    convention: &CallingConvention,
) -> (result: GenerationResult<()>)
    ensures
        verdict_of(result) == convention_verdict(declaration, *convention),
{
    match convention {
        CallingConvention::Lowered => Ok(()),
        CallingConvention::Refused { reason } => Err(
            GenerationError::UnsupportedDeclaration { declaration, reason: *reason },
        ),
    }
}

/// Whether an attribute bears on the ABI and is not understood.
fn any_unsupported_attribute(attributes: &Vec<SourceAttribute>) -> (result: bool)
    ensures
        result == has_unsupported_attribute(attributes@),
{
    for index in 0..attributes.len()
        invariant
            forall|earlier: int|
                0 <= earlier < index ==> !((#[trigger] attributes@[earlier]).disposition
                    is UnsupportedAbiRelevant),
    {
        if matches!(attributes[index].disposition, AttributeDisposition::UnsupportedAbiRelevant) {
            return true;
        }
    }
    false
}

/// Whether an array with this bound has a Rust representation at `position`.
fn is_bound_admitted(bound: &ArrayBound, position: TypePosition) -> (result: bool)
    ensures
        result == bound_admitted(*bound, position),
{
    match (bound, position) {
        (ArrayBound::Fixed { elements }, _) => *elements != 0,
        (ArrayBound::Flexible, TypePosition::ByValue) => true,
        (ArrayBound::Incomplete, TypePosition::Parameter) => true,
        (ArrayBound::Flexible, TypePosition::Parameter) => true,
        (ArrayBound::StaticMinimum, TypePosition::Parameter) => true,
        _ => false,
    }
}

impl<'a> SourceVerifier<'a> {
    /// Refuses the type at `path` within `declaration`.
    fn unsupported_type<T>(
        &self,
        declaration: DeclarationId,
        path: &str,
        reason: &'static str,
    ) -> (result: GenerationResult<T>)
        ensures
            result is Err,
            verdict_of(result) == Verdict::Err(type_refusal(declaration, path@, reason@)),
    {
        Err(GenerationError::UnsupportedType { declaration, path: path.to_owned(), reason })
    }

    /// Refuses `declaration`.
    fn unsupported_declaration<T>(
        &self,
        declaration: DeclarationId,
        reason: &'static str,
    ) -> (result: GenerationResult<T>)
        ensures
            result is Err,
            verdict_of(result) == Verdict::Err(declaration_refusal(declaration, reason@)),
    {
        Err(GenerationError::UnsupportedDeclaration { declaration, reason })
    }

    /// The declaration `target`, which `owner` refers to.
    pub fn declaration(&self, owner: DeclarationId, target: DeclarationId) -> (result:
        GenerationResult<&SourceDeclaration>)
        ensures
            match result {
                Ok(declaration) => lookup(self@, owner, target) == Ok::<_, crate::error::Refusal>(
                    *declaration,
                ),
                Err(error) => lookup(self@, owner, target) == Err::<SourceDeclaration, _>(error@),
            },
    {
        if !self.requirements.contains_key(&target) {
            return self.unsupported_type(
                owner,
                "declaration_graph",
                "named type reference escapes the selected closed world",
            );
        }
        match self.source.source().declaration(target) {
            Some(declaration) => Ok(declaration),
            None => Err(GenerationError::MissingDeclaration { declaration: target }),
        }
    }

    /// How much of `target`, which `owner` refers to, is needed.
    pub fn requirement(&self, owner: DeclarationId, target: DeclarationId) -> (result:
        GenerationResult<ClosureRequirement>)
        ensures
            match result {
                Ok(requirement) => requirement_on(self@, owner, target) == Ok::<
                    _,
                    crate::error::Refusal,
                >(requirement),
                Err(error) => requirement_on(self@, owner, target) == Err::<
                    ClosureRequirement,
                    _,
                >(error@),
            },
    {
        match self.requirements.get(&target) {
            Some(requirement) => Ok(*requirement),
            None => self.unsupported_type(
                owner,
                "declaration_graph",
                "declaration requirement is absent from the selected closed world",
            ),
        }
    }

    /// Opens the type alias `alias`, unless it is open already.
    pub fn push_alias(
        &self,
        owner: DeclarationId,
        alias: DeclarationId,
        stack: &mut Vec<DeclarationId>,
    ) -> (result: GenerationResult<()>)
        ensures
            verdict_of(result) == alias_verdict(owner, alias, old(stack)@),
            final(stack)@ == if result is Ok {
                old(stack)@.push(alias)
            } else {
                old(stack)@
            },
    {
        if stack_contains(stack, alias) {
            return self.unsupported_type(owner, "alias_graph", "type-alias cycle detected");
        }
        stack.push(alias);
        Ok(())
    }

    /// Verifies that a current layout was measured for a record (`record`) or
    /// an enum.
    pub fn require_layout(&self, declaration: DeclarationId, record: bool) -> (result:
        GenerationResult<()>)
        ensures
            verdict_of(result) == layout_verdict(self@, declaration, record),
    {
        let layout = match self.evidence.package().find_layout(declaration) {
            Some(layout) => layout,
            None => {
                return Err(GenerationError::MissingLayoutEvidence { declaration });
            },
        };
        let matches_kind = match layout.kind {
            LayoutKind::Record => record,
            LayoutKind::Enum => !record,
        };
        let source = self.source.source();
        if !matches_kind || layout.source_fingerprint != source.fingerprint
            || layout.target_fingerprint != source.target_fingerprint {
            return Err(
                GenerationError::LayoutMismatch {
                    declaration,
                    reason: "layout kind or source/target fingerprint is stale",
                },
            );
        }
        Ok(())
    }

    /// Verifies what is said of a type beside its shape.
    pub fn verify_type_metadata(&self, owner: DeclarationId, path: &str, ty: &CType) -> (result:
        GenerationResult<()>)
        ensures
            verdict_of(result) == metadata_verdict(owner, path@, *ty),
    {
        if !ty.support.is_supported() {
            return self.unsupported_type(owner, path, "type support is not fully accepted");
        }
        if ty.qualifiers.is_atomic {
            return self.unsupported_type(owner, path, "_Atomic semantics are not modeled");
        }
        if ty.qualifiers.is_volatile {
            return self.unsupported_type(owner, path, "volatile semantics are not modeled");
        }
        if ty.nullability != Nullability::Unspecified && !matches!(
            ty.kind,
            CTypeKind::Pointer(_) | CTypeKind::Function(_)
        ) {
            return self.unsupported_type(
                owner,
                path,
                "nullability appears on a non-pointer type",
            );
        }
        Ok(())
    }

    /// Verifies a use of a type at `position`, and all that the type is made
    /// of. The type stands at `path` within `owner`; `aliases` and
    /// `by_value_records` are open.
    pub fn verify_type(
        &self,
        owner: DeclarationId,
        path: &str,
        ty: &CType,
        position: TypePosition,
        aliases: &mut Vec<DeclarationId>,
        by_value_records: &mut Vec<DeclarationId>,
    ) -> (result: GenerationResult<()>)
        ensures
            ({
                let outcome = type_outcome(
                    self@,
                    owner,
                    path@,
                    *ty,
                    position,
                    old(aliases)@,
                    old(by_value_records)@,
                );
                &&& verdict_of(result) == outcome.verdict()
                &&& final(aliases)@ == old(aliases)@
                &&& final(by_value_records)@ == outcome.records_after(old(by_value_records)@)
            }),
        decreases unopened(self@, old(aliases)@, old(by_value_records)@), 1nat, ty, 0nat,
    {
        let metadata = self.verify_type_metadata(owner, path, ty);
        if metadata.is_err() {
            return metadata;
        }
        match &ty.kind {
            CTypeKind::Void => {
                if !position.admits_void() {
                    return self.unsupported_type(owner, path, "void appears in a value position");
                }
                Ok(())
            },
            CTypeKind::Bool | CTypeKind::Integer | CTypeKind::Floating => Ok(()),
            CTypeKind::Complex => self.unsupported_type(
                owner,
                path,
                "complex C types are explicitly rejected",
            ),
            CTypeKind::Pointer(pointee) => {
                let pointee_path = extend_path(path, ".pointee");
                self.verify_type(
                    owner,
                    pointee_path.as_str(),
                    pointee,
                    TypePosition::BehindPointer,
                    aliases,
                    by_value_records,
                )
            },
            CTypeKind::Array { element, bound, parameter_qualifiers } => {
                if *parameter_qualifiers != TypeQualifiers::none() && position
                    != TypePosition::Parameter {
                    return self.unsupported_type(
                        owner,
                        path,
                        "parameter-only array qualifiers appear outside a parameter",
                    );
                }
                if !is_bound_admitted(bound, position) {
                    return self.unsupported_type(
                        owner,
                        path,
                        "array bound has no certified Rust ABI representation",
                    );
                }
                let position_of_elements = if position == TypePosition::Parameter {
                    TypePosition::BehindPointer
                } else {
                    TypePosition::ByValue
                };
                let element_path = extend_path(path, ".element");
                self.verify_type(
                    owner,
                    element_path.as_str(),
                    element,
                    position_of_elements,
                    aliases,
                    by_value_records,
                )
            },
            CTypeKind::Function(function) => {
                if !matches!(position, TypePosition::BehindPointer | TypePosition::Parameter) {
                    return self.unsupported_type(
                        owner,
                        path,
                        "bare function type appears outside pointer/parameter adjustment",
                    );
                }
                let convention = lower_calling_convention(owner, &function.calling_convention);
                if convention.is_err() {
                    return convention;
                }
                if !function.prototype.is_fixed() {
                    return self.unsupported_type(
                        owner,
                        path,
                        "variadic or unspecified callbacks are explicitly rejected",
                    );
                }
                let return_path = extend_path(path, ".return_type");
                let returned = self.verify_type(
                    owner,
                    return_path.as_str(),
                    &function.return_type,
                    TypePosition::Return,
                    aliases,
                    by_value_records,
                );
                if returned.is_err() {
                    return returned;
                }
                for index in 0..function.parameters.len()
                    invariant
                        aliases@ == old(aliases)@,
                        by_value_records@ == old(by_value_records)@,
                        ty.kind is Function,
                        *function == ty.kind->Function_0,
                        callback_parameters_outcome(
                            self@,
                            owner,
                            path@,
                            function.parameters@,
                            index as nat,
                            old(aliases)@,
                            old(by_value_records)@,
                        ) is Accepted,
                        callback_parameters_outcome(
                            self@,
                            owner,
                            path@,
                            function.parameters@,
                            function.parameters@.len(),
                            old(aliases)@,
                            old(by_value_records)@,
                        ) == type_outcome(
                            self@,
                            owner,
                            path@,
                            *ty,
                            position,
                            old(aliases)@,
                            old(by_value_records)@,
                        ),
                {
                    let parameter_path = index_path(path, ".parameters", index as u64);
                    let result = self.verify_type(
                        owner,
                        parameter_path.as_str(),
                        &function.parameters[index].ty,
                        TypePosition::Parameter,
                        aliases,
                        by_value_records,
                    );
                    if result.is_err() {
                        proof {
                            lemma_callback_parameters_refused(
                                self@,
                                owner,
                                path@,
                                function.parameters@,
                                (index + 1) as nat,
                                function.parameters@.len(),
                                old(aliases)@,
                                old(by_value_records)@,
                            );
                        }
                        return result;
                    }
                }
                Ok(())
            },
            CTypeKind::AliasRef(target) => {
                let declaration = match self.declaration(owner, *target) {
                    Ok(declaration) => declaration,
                    Err(error) => {
                        return Err(error);
                    },
                };
                let alias = match &declaration.kind {
                    SourceDeclarationKind::TypeAlias(alias) => alias,
                    _ => {
                        return self.unsupported_type(
                            owner,
                            path,
                            "AliasRef does not reference a type-alias declaration",
                        );
                    },
                };
                proof {
                    lemma_unvisited_push(self@.selected(), aliases@, *target);
                }
                let opened = self.push_alias(owner, *target, aliases);
                if opened.is_err() {
                    return opened;
                }
                let target_path = extend_path(path, ".alias_target");
                let result = self.verify_type(
                    owner,
                    target_path.as_str(),
                    &alias.target,
                    position,
                    aliases,
                    by_value_records,
                );
                aliases.pop();
                assert(aliases@ =~= old(aliases)@);
                result
            },
            CTypeKind::RecordRef(target) => {
                let declaration = match self.declaration(owner, *target) {
                    Ok(declaration) => declaration,
                    Err(error) => {
                        return Err(error);
                    },
                };
                let record = match &declaration.kind {
                    SourceDeclarationKind::Record(record) => record,
                    _ => {
                        return self.unsupported_type(
                            owner,
                            path,
                            "RecordRef does not reference a record declaration",
                        );
                    },
                };
                // Naming an opaque record is not using one. A use of an alias
                // carries its own position, so a parameter `T` is refused
                // where `T *` is not.
                if position.names_only() {
                    return Ok(());
                }
                match self.requirement(owner, *target) {
                    Ok(requirement) => {
                        if requirement != ClosureRequirement::Definition {
                            return self.unsupported_type(
                                owner,
                                path,
                                "opaque record is used by value",
                            );
                        }
                    },
                    Err(error) => {
                        return Err(error);
                    },
                }
                self.verify_record(*target, record, aliases, by_value_records)
            },
            CTypeKind::EnumRef(target) => {
                let declaration = match self.declaration(owner, *target) {
                    Ok(declaration) => declaration,
                    Err(error) => {
                        return Err(error);
                    },
                };
                if !matches!(declaration.kind, SourceDeclarationKind::Enum(_)) {
                    return self.unsupported_type(
                        owner,
                        path,
                        "EnumRef does not reference an enum declaration",
                    );
                }
                self.require_layout(*target, false)
            },
            CTypeKind::Unsupported => self.unsupported_type(
                owner,
                path,
                "unsupported PARC type node entered the strict closure",
            ),
        }
    }

    /// Verifies the record `owner`, used by value, and all that it is made of.
    pub fn verify_record(
        &self,
        owner: DeclarationId,
        record: &SourceRecord,
        aliases: &mut Vec<DeclarationId>,
        by_value_records: &mut Vec<DeclarationId>,
    ) -> (result: GenerationResult<()>)
        ensures
            ({
                let outcome = record_outcome(
                    self@,
                    owner,
                    *record,
                    old(aliases)@,
                    old(by_value_records)@,
                );
                &&& verdict_of(result) == outcome.verdict()
                &&& final(aliases)@ == old(aliases)@
                &&& final(by_value_records)@ == outcome.records_after(old(by_value_records)@)
            }),
        decreases
                unopened(self@, old(aliases)@, old(by_value_records)@)
                    + if self@.selected().contains(owner) {
                    0nat
                } else {
                    1nat
                },
                0nat,
                record,
                0nat,
    {
        if record.completeness != RecordCompleteness::Complete {
            return self.unsupported_declaration(owner, "by-value record is incomplete or opaque");
        }
        let layout = self.require_layout(owner, true);
        if layout.is_err() {
            return layout;
        }
        if record.fields.len() == 0 {
            return self.unsupported_declaration(owner, "empty C records are extension-dependent");
        }
        if stack_contains(by_value_records, owner) {
            return self.unsupported_declaration(
                owner,
                "by-value record dependency cycle detected",
            );
        }
        proof {
            lemma_unvisited_push(self@.selected(), by_value_records@, owner);
        }
        by_value_records.push(owner);
        let ghost opened = by_value_records@;
        let last: usize = record.fields.len() - 1;
        for index in 0..record.fields.len()
            invariant
                aliases@ == old(aliases)@,
                opened == old(by_value_records)@.push(owner),
                by_value_records@ == opened,
                last == record.fields@.len() - 1,
                unopened(self@, aliases@, opened) < unopened(
                    self@,
                    old(aliases)@,
                    old(by_value_records)@,
                ) + if self@.selected().contains(owner) {
                    0nat
                } else {
                    1nat
                },
                record_fields_outcome(self@, owner, *record, index as nat, aliases@, opened)
                    is Accepted,
                record_fields_outcome(
                    self@,
                    owner,
                    *record,
                    record.fields@.len(),
                    aliases@,
                    opened,
                ) == record_outcome(self@, owner, *record, aliases@, old(by_value_records)@),
        {
            let field = &record.fields[index];
            let unsupported = !field.support.is_supported() || any_unsupported_attribute(
                &field.attributes,
            );
            let flexible = match &field.ty.kind {
                CTypeKind::Array { bound: ArrayBound::Flexible, .. } => true,
                _ => false,
            };
            let result = if unsupported {
                by_value_records.pop();
                self.unsupported_declaration(owner, "record field is not fully supported")
            } else if field.bit_width.is_some() {
                by_value_records.pop();
                self.unsupported_declaration(owner, "bitfields are explicitly rejected")
            } else if flexible && (record.kind != RecordKind::Struct || index != last) {
                by_value_records.pop();
                self.unsupported_declaration(
                    owner,
                    "a flexible array is legal only as the final struct field",
                )
            } else {
                let field_path = index_path("record", ".fields", index as u64);
                self.verify_type(
                    owner,
                    field_path.as_str(),
                    &field.ty,
                    TypePosition::ByValue,
                    aliases,
                    by_value_records,
                )
            };
            if result.is_err() {
                proof {
                    lemma_record_fields_refused(
                        self@,
                        owner,
                        *record,
                        (index + 1) as nat,
                        record.fields@.len(),
                        aliases@,
                        opened,
                    );
                }
                return result;
            }
        }
        by_value_records.pop();
        assert(by_value_records@ =~= old(by_value_records)@);
        Ok(())
    }

    /// Verifies a function declaration.
    fn verify_function(
        &self,
        owner: DeclarationId,
        function: &SourceFunction,
        aliases: &mut Vec<DeclarationId>,
        by_value_records: &mut Vec<DeclarationId>,
    ) -> (result: GenerationResult<()>)
        ensures
            ({
                let outcome = function_outcome(
                    self@,
                    owner,
                    *function,
                    old(aliases)@,
                    old(by_value_records)@,
                );
                &&& verdict_of(result) == outcome.verdict()
                &&& final(aliases)@ == old(aliases)@
                &&& final(by_value_records)@ == outcome.records_after(old(by_value_records)@)
            }),
    {
        let convention = lower_calling_convention(owner, &function.calling_convention);
        if convention.is_err() {
            return convention;
        }
        if !function.prototype.is_fixed() {
            return self.unsupported_declaration(
                owner,
                "variadic or unspecified function prototypes are outside the certified ABI",
            );
        }
        let returned = self.verify_type(
            owner,
            "function.return_type",
            &function.return_type,
            TypePosition::Return,
            aliases,
            by_value_records,
        );
        if returned.is_err() {
            return returned;
        }
        for index in 0..function.parameters.len()
            invariant
                aliases@ == old(aliases)@,
                by_value_records@ == old(by_value_records)@,
                parameters_outcome(
                    self@,
                    owner,
                    function.parameters@,
                    index as nat,
                    aliases@,
                    by_value_records@,
                ) is Accepted,
                parameters_outcome(
                    self@,
                    owner,
                    function.parameters@,
                    function.parameters@.len(),
                    aliases@,
                    by_value_records@,
                ) == function_outcome(
                    self@,
                    owner,
                    *function,
                    old(aliases)@,
                    old(by_value_records)@,
                ),
        {
            let parameter = &function.parameters[index];
            let parameter_path = index_path("function", ".parameters", parameter.ordinal as u64);
            let result = self.verify_type(
                owner,
                parameter_path.as_str(),
                &parameter.ty,
                TypePosition::Parameter,
                aliases,
                by_value_records,
            );
            if result.is_err() {
                proof {
                    lemma_parameters_refused(
                        self@,
                        owner,
                        function.parameters@,
                        (index + 1) as nat,
                        function.parameters@.len(),
                        old(aliases)@,
                        old(by_value_records)@,
                    );
                }
                return result;
            }
        }
        Ok(())
    }

    /// Verifies the variants of the enum `owner`.
    fn verify_variants(&self, owner: DeclarationId, variants: &Vec<SourceEnumVariant>) -> (result:
        GenerationResult<()>)
        ensures
            verdict_of(result) == variants_verdict(owner, variants@, variants@.len()),
    {
        let mut children: BTreeSet<ChildId> = BTreeSet::new();
        for index in 0..variants.len()
            invariant
                forall|id: ChildId| #[trigger]
                    children@.contains(id) <==> exists|earlier: int|
                        0 <= earlier < index && (#[trigger] variants@[earlier]).id == id,
                variants_verdict(owner, variants@, index as nat) == Verdict::Ok(()),
        {
            let variant = &variants[index];
            let ghost seen = children@;
            let distinct = children.insert(variant.id);
            let result = if !distinct || !variant.support.is_supported() {
                self.unsupported_declaration(
                    owner,
                    "enum variants must be distinct and fully supported",
                )
            } else if matches!(variant.value, EnumValue::Unevaluated) {
                self.unsupported_declaration(owner, "enum values must be evaluated exactly")
            } else {
                Ok(())
            };
            if result.is_err() {
                proof {
                    lemma_variants_refused(
                        owner,
                        variants@,
                        (index + 1) as nat,
                        variants@.len(),
                    );
                }
                return result;
            }
            assert forall|id: ChildId| #[trigger] children@.contains(id) implies exists|
                earlier: int,
            |
                0 <= earlier < index + 1 && (#[trigger] variants@[earlier]).id == id by {
                if id == variant.id {
                    assert(variants@[index as int].id == id);
                } else {
                    assert(seen.contains(id));
                }
            }
        }
        Ok(())
    }

    /// Verifies an enum declaration.
    fn verify_enum(
        &self,
        owner: DeclarationId,
        enumeration: &SourceEnum,
        aliases: &mut Vec<DeclarationId>,
        by_value_records: &mut Vec<DeclarationId>,
    ) -> (result: GenerationResult<()>)
        ensures
            ({
                let outcome = enum_outcome(
                    self@,
                    owner,
                    *enumeration,
                    old(aliases)@,
                    old(by_value_records)@,
                );
                &&& verdict_of(result) == outcome.verdict()
                &&& final(aliases)@ == old(aliases)@
                &&& final(by_value_records)@ == outcome.records_after(old(by_value_records)@)
            }),
    {
        let layout = self.require_layout(owner, false);
        if layout.is_err() {
            return layout;
        }
        if let Some(underlying) = &enumeration.explicit_underlying_type {
            let result = self.verify_type(
                owner,
                "enum.explicit_underlying_type",
                underlying,
                TypePosition::ByValue,
                aliases,
                by_value_records,
            );
            if result.is_err() {
                return result;
            }
        }
        self.verify_variants(owner, &enumeration.variants)
    }

    /// Verifies a declaration, its types included.
    pub fn verify_declaration(
        &self,
        declaration: &SourceDeclaration,
        aliases: &mut Vec<DeclarationId>,
        by_value_records: &mut Vec<DeclarationId>,
    ) -> (result: GenerationResult<()>)
        ensures
            ({
                let outcome = declaration_outcome(
                    self@,
                    *declaration,
                    old(aliases)@,
                    old(by_value_records)@,
                );
                &&& verdict_of(result) == outcome.verdict()
                &&& final(aliases)@ == old(aliases)@
                &&& final(by_value_records)@ == outcome.records_after(old(by_value_records)@)
            }),
    {
        match &declaration.kind {
            SourceDeclarationKind::Function(function) => self.verify_function(
                declaration.id,
                function,
                aliases,
                by_value_records,
            ),
            SourceDeclarationKind::Record(record) => {
                match self.requirement(declaration.id, declaration.id) {
                    Ok(requirement) => {
                        if requirement == ClosureRequirement::Definition {
                            self.verify_record(declaration.id, record, aliases, by_value_records)
                        } else {
                            Ok(())
                        }
                    },
                    Err(error) => Err(error),
                }
            },
            SourceDeclarationKind::Enum(enumeration) => self.verify_enum(
                declaration.id,
                enumeration,
                aliases,
                by_value_records,
            ),
            SourceDeclarationKind::TypeAlias(alias) => {
                let opened = self.push_alias(declaration.id, declaration.id, aliases);
                if opened.is_err() {
                    return opened;
                }
                let result = self.verify_type(
                    declaration.id,
                    "type_alias.target",
                    &alias.target,
                    TypePosition::AliasTarget,
                    aliases,
                    by_value_records,
                );
                aliases.pop();
                assert(aliases@ =~= old(aliases)@);
                result
            },
            SourceDeclarationKind::Variable(variable) => {
                if variable.thread_local {
                    return self.unsupported_declaration(
                        declaration.id,
                        "thread-local globals are explicitly rejected",
                    );
                }
                self.verify_type(
                    declaration.id,
                    "variable.type",
                    &variable.ty,
                    TypePosition::ByValue,
                    aliases,
                    by_value_records,
                )
            },
            SourceDeclarationKind::Unsupported => self.unsupported_declaration(
                declaration.id,
                "unsupported source declaration entered the strict closure",
            ),
        }
    }

    /// Verifies how a declaration was reconciled.
    pub fn verify_reconciled_declaration(&self, declaration: &SourceDeclaration) -> (result:
        GenerationResult<()>)
        ensures
            verdict_of(result) == reconciled_verdict(*declaration),
    {
        if !declaration.support.is_supported() {
            return self.unsupported_declaration(
                declaration.id,
                "PARC source support is not fully accepted",
            );
        }
        let places = &declaration.occurrences;
        let mut occurrences: BTreeSet<OccurrenceId> = BTreeSet::new();
        for index in 0..places.len()
            invariant
                forall|id: OccurrenceId| #[trigger]
                    occurrences@.contains(id) <==> exists|earlier: int|
                        0 <= earlier < index && (#[trigger] places@[earlier]).id == id,
                occurrences_verdict(declaration.id, places@, index as nat) == Verdict::Ok(()),
                occurrences_verdict(declaration.id, places@, places@.len()) == reconciled_verdict(
                    *declaration,
                ),
        {
            let occurrence = &places[index];
            let ghost seen = occurrences@;
            let result = if !occurrences.insert(occurrence.id) {
                self.unsupported_declaration(
                    declaration.id,
                    "reconciled declaration repeats a source occurrence",
                )
            } else if any_unsupported_attribute(&occurrence.attributes) {
                self.unsupported_declaration(
                    declaration.id,
                    "an ABI-relevant declaration attribute is unsupported",
                )
            } else {
                Ok(())
            };
            if result.is_err() {
                proof {
                    lemma_occurrences_refused(
                        declaration.id,
                        places@,
                        (index + 1) as nat,
                        places@.len(),
                    );
                }
                return result;
            }
            assert forall|id: OccurrenceId| #[trigger] occurrences@.contains(id) implies exists|
                earlier: int,
            |
                0 <= earlier < index + 1 && (#[trigger] places@[earlier]).id == id by {
                if id == occurrence.id {
                    assert(places@[index as int].id == id);
                } else {
                    assert(seen.contains(id));
                }
            }
        }
        Ok(())
    }

    /// Verifies the link evidence for a declaration.
    pub fn verify_evidence(&self, declaration: &SourceDeclaration) -> (result: GenerationResult<()>)
        ensures
            verdict_of(result) == evidence_verdict(self@, *declaration),
    {
        let package = self.evidence.package();
        let evidence = match package.find_evidence(declaration.id) {
            Some(evidence) => evidence,
            None => {
                return Err(
                    GenerationError::MissingDeclarationEvidence { declaration: declaration.id },
                );
            },
        };
        let source = self.source.source();
        if evidence.source_fingerprint != source.fingerprint {
            return Err(GenerationError::SourceFingerprintMismatch);
        }
        if evidence.target_fingerprint != source.target_fingerprint {
            return Err(GenerationError::TargetFingerprintMismatch);
        }
        if matches!(
            declaration.kind,
            SourceDeclarationKind::Function(_) | SourceDeclarationKind::Variable(_)
        ) && declaration.linkage == Linkage::External {
            let provider = match evidence.provider {
                ProviderAssessment::Resolved { provider } => provider,
                _ => {
                    return self.unsupported_declaration(
                        declaration.id,
                        "selected extern has no single resolved provider",
                    );
                },
            };
            let bound = match evidence.symbol {
                SymbolAssessment::Exact { symbol } => symbol.provider == provider,
                _ => false,
            };
            if !bound {
                return self.unsupported_declaration(
                    declaration.id,
                    "selected extern has no exact provider-bound symbol",
                );
            }
            if !package.is_planned(provider) {
                return self.unsupported_declaration(
                    declaration.id,
                    "selected extern provider is absent from the ordered link plan",
                );
            }
        }
        Ok(())
    }

    /// The selected declarations, in increasing order and each once.
    pub fn selected(&self) -> (result: Vec<DeclarationId>)
        ensures
            in_order(self@.selected(), result@),
    {
        let mut result: Vec<DeclarationId> = Vec::new();
        let keys = self.requirements.keys();
        let ghost all = vstd::std_specs::iter::IteratorSpec::remaining(&keys).unref();
        for id in walk: keys
            invariant
                walk.seq().unref() == all,
                result@ == all.take(walk.index()),
        {
            result.push(*id);
        }
        proof {
            broadcast use vstd::laws_cmp::group_laws_cmp;

            let borrowed = vstd::std_specs::iter::IteratorSpec::remaining(&keys);
            assert(all.to_set() == self@.selected());
            assert(result@ =~= all);
            assert(vstd::laws_cmp::obeys_cmp::<&DeclarationId>());
            assert(vstd::std_specs::btree::increasing_seq(borrowed));
            assert forall|i: int, j: int| 0 <= i < j < borrowed.len() implies *borrowed[i]
                < *borrowed[j] by {
                assert(vstd::std_specs::cmp::OrdSpec::cmp_spec(&borrowed[i], &borrowed[j]) is Less);
            }
        }
        result
    }

    /// Binds a source package, the evidence gathered for it and the
    /// declarations that `request` needs.
    pub fn new(
        source: &'a CompleteSourcePackage,
        evidence: &'a ValidatedLinkAnalysis,
        request: &GenerationRequest<'_>,
    ) -> (result: GenerationResult<SourceVerifier<'a>>)
        ensures
            verdict_of(result) == binding_verdict(source.package, evidence.analysis()),
            result matches Ok(verifier) ==> verifier@ == (ClosedWorld {
                source: source.package,
                evidence: evidence.analysis(),
                requirements: closure_map(
                    request.declaration_closure@,
                    request.declaration_closure@.len(),
                ),
            }),
    {
        let package = evidence.package();
        if package.source_fingerprint != source.source().fingerprint {
            return Err(GenerationError::SourceFingerprintMismatch);
        }
        if package.target_fingerprint != source.source().target_fingerprint {
            return Err(GenerationError::TargetFingerprintMismatch);
        }
        let entries = &request.declaration_closure;
        let mut requirements: BTreeMap<DeclarationId, ClosureRequirement> = BTreeMap::new();
        for index in 0..entries.len()
            invariant
                requirements@ == closure_map(entries@, index as nat),
        {
            requirements.insert(entries[index].declaration, entries[index].requirement);
        }
        Ok(SourceVerifier { source, evidence, requirements })
    }

    /// Verifies the selected declarations: all are admitted before the types
    /// of any are looked at. A map holds each key once, so no declaration is
    /// verified twice in one pass.
    pub fn verify(&self) -> (result: GenerationResult<()>)
        ensures
            verdict_of(result) == world_verdict(self@),
    {
        let selected = self.selected();
        let ghost ids = self@.selected();
        let ghost admission = |id: DeclarationId| admission_verdict(self@, id);
        let ghost body = |id: DeclarationId| body_verdict(self@, id);
        for index in 0..selected.len()
            invariant
                in_order(ids, selected@),
                ids == self@.selected(),
                admission == (|id: DeclarationId| admission_verdict(self@, id)),
                forall|earlier: int|
                    0 <= earlier < index ==> admission(#[trigger] selected@[earlier]) is Ok,
        {
            let result = self.verify_admission(selected[index]);
            if result.is_err() {
                proof {
                    lemma_first_refusal(ids, admission, selected@, index as int);
                }
                return result;
            }
        }
        proof {
            lemma_first_refusal(ids, admission, selected@, selected@.len() as int);
        }
        for index in 0..selected.len()
            invariant
                in_order(ids, selected@),
                ids == self@.selected(),
                first_refusal(
                    ids,
                    |id: DeclarationId| admission_verdict(self@, id),
                ) == Verdict::Ok(()),
                body == (|id: DeclarationId| body_verdict(self@, id)),
                forall|earlier: int|
                    0 <= earlier < index ==> body(#[trigger] selected@[earlier]) is Ok,
        {
            let result = self.verify_body(selected[index]);
            if result.is_err() {
                proof {
                    lemma_first_refusal(ids, body, selected@, index as int);
                }
                return result;
            }
        }
        proof {
            lemma_first_refusal(ids, body, selected@, selected@.len() as int);
        }
        Ok(())
    }

    /// Verifies the selected declaration `id`, before its types are looked at.
    fn verify_admission(&self, id: DeclarationId) -> (result: GenerationResult<()>)
        ensures
            verdict_of(result) == admission_verdict(self@, id),
    {
        let declaration = match self.declaration(id, id) {
            Ok(declaration) => declaration,
            Err(error) => {
                return Err(error);
            },
        };
        let reconciled = self.verify_reconciled_declaration(declaration);
        if reconciled.is_err() {
            return reconciled;
        }
        self.verify_evidence(declaration)
    }

    /// Verifies the types of the selected declaration `id`.
    fn verify_body(&self, id: DeclarationId) -> (result: GenerationResult<()>)
        ensures
            verdict_of(result) == body_verdict(self@, id),
    {
        let declaration = match self.declaration(id, id) {
            Ok(declaration) => declaration,
            Err(error) => {
                return Err(error);
            },
        };
        let mut aliases: Vec<DeclarationId> = Vec::new();
        let mut by_value_records: Vec<DeclarationId> = Vec::new();
        self.verify_declaration(declaration, &mut aliases, &mut by_value_records)
    }
}

/// Verifies a generation request before lowering: the evidence must belong to
/// the source package, and every declaration that the selection needs must lie
/// within the certified ABI.
pub fn verify_pre_lowering(request: &GenerationRequest<'_>) -> (result: GenerationResult<()>)
    ensures
        verdict_of(result) == request_verdict(
            request.source.package,
            request.evidence.analysis(),
            request.declaration_closure@,
        ),
{
    match SourceVerifier::new(request.source, request.evidence, request) {
        Ok(verifier) => verifier.verify(),
        Err(error) => Err(error),
    }
}

} // verus!

use gerc::error::{GenerationError, GenerationResult};
use gerc::evidence::{
    DeclarationEvidence, LayoutEvidence, LayoutKind, LinkAnalysis, LinkArtifact, LinkAtom,
    ProviderAssessment, ProviderSymbol, SymbolAssessment, ValidatedLinkAnalysis,
};
use gerc::position::TypePosition;
use gerc::request::{ClosureEntry, ClosureRequirement, GenerationRequest};
use gerc::source::{
    ArrayBound, AttributeDisposition, CFunctionType, CParameter, CType, CTypeKind,
    CallingConvention, CompleteSourcePackage, DeclarationId, EnumValue, FunctionPrototype, Linkage,
    Nullability, RecordCompleteness, RecordKind, SourceAttribute, SourceDeclaration,
    SourceDeclarationKind, SourceEnum, SourceEnumVariant, SourceField, SourceFingerprint,
    SourceFunction, SourceOccurrence, SourcePackage, SourceParameter, SourceRecord,
    SourceTypeAlias, SourceVariable, SupportStatus, TargetFingerprint, TypeQualifiers,
};
use gerc::source_verifier::{lower_calling_convention, verify_pre_lowering, SourceVerifier};

const PROVIDER: u64 = 7;

fn fingerprint() -> SourceFingerprint {
    SourceFingerprint { high: 1, low: 2 }
}

fn other_fingerprint() -> SourceFingerprint {
    SourceFingerprint { high: 1, low: 3 }
}

fn target() -> TargetFingerprint {
    TargetFingerprint { high: 4, low: 5 }
}

fn other_target() -> TargetFingerprint {
    TargetFingerprint { high: 6, low: 5 }
}

/// A source package with the evidence and the closure for it.
struct World {
    source: CompleteSourcePackage,
    analysis: LinkAnalysis,
    closure: Vec<ClosureEntry>,
}

/// A world in which all of `declarations` are selected, with evidence that
/// fits each of them.
fn world(declarations: Vec<SourceDeclaration>) -> World {
    let mut evidence: Vec<DeclarationEvidence> = Vec::new();
    let mut layouts: Vec<LayoutEvidence> = Vec::new();
    let mut closure: Vec<ClosureEntry> = Vec::new();
    for declaration in &declarations {
        evidence.push(DeclarationEvidence {
            declaration: declaration.id,
            source_fingerprint: fingerprint(),
            target_fingerprint: target(),
            provider: ProviderAssessment::Resolved { provider: PROVIDER },
            symbol: SymbolAssessment::Exact {
                symbol: ProviderSymbol { provider: PROVIDER },
            },
        });
        let kind = match declaration.kind {
            SourceDeclarationKind::Record(_) => Some(LayoutKind::Record),
            SourceDeclarationKind::Enum(_) => Some(LayoutKind::Enum),
            _ => None,
        };
        if let Some(kind) = kind {
            layouts.push(LayoutEvidence {
                declaration: declaration.id,
                kind,
                source_fingerprint: fingerprint(),
                target_fingerprint: target(),
            });
        }
        closure.push(ClosureEntry {
            declaration: declaration.id,
            requirement: ClosureRequirement::Definition,
        });
    }
    evidence.sort_by_key(|entry| entry.declaration);
    layouts.sort_by_key(|entry| entry.declaration);
    World {
        source: CompleteSourcePackage {
            package: SourcePackage {
                fingerprint: fingerprint(),
                target_fingerprint: target(),
                declarations,
            },
        },
        analysis: LinkAnalysis {
            source_fingerprint: fingerprint(),
            target_fingerprint: target(),
            declaration_evidence: evidence,
            layouts,
            link_plan: vec![
                LinkAtom::Directive,
                LinkAtom::Artifact(LinkArtifact {
                    provider_id: PROVIDER,
                }),
            ],
        },
        closure,
    }
}

impl World {
    /// Needs no more than the name of `id`.
    fn name_only(mut self, id: DeclarationId) -> World {
        for entry in &mut self.closure {
            if entry.declaration == id {
                entry.requirement = ClosureRequirement::Name;
            }
        }
        self
    }

    /// Leaves `id` out of the selection.
    fn without(mut self, id: DeclarationId) -> World {
        self.closure.retain(|entry| entry.declaration != id);
        self
    }

    fn verify(self) -> GenerationResult<()> {
        let evidence = ValidatedLinkAnalysis::try_new(self.analysis).expect("ordered evidence");
        let request = GenerationRequest {
            source: &self.source,
            evidence: &evidence,
            declaration_closure: self.closure,
        };
        verify_pre_lowering(&request)
    }
}

fn declaration(id: DeclarationId, kind: SourceDeclarationKind) -> SourceDeclaration {
    SourceDeclaration {
        id,
        linkage: Linkage::External,
        occurrences: vec![SourceOccurrence {
            id: 1,
            attributes: vec![accepted_attribute()],
        }],
        support: SupportStatus::Supported,
        kind,
    }
}

fn accepted_attribute() -> SourceAttribute {
    SourceAttribute {
        disposition: AttributeDisposition::Accepted,
    }
}

fn unsupported_attribute() -> SourceAttribute {
    SourceAttribute {
        disposition: AttributeDisposition::UnsupportedAbiRelevant,
    }
}

fn ctype(kind: CTypeKind) -> CType {
    CType {
        qualifiers: TypeQualifiers::none(),
        nullability: Nullability::Unspecified,
        kind,
        support: SupportStatus::Supported,
    }
}

fn integer() -> CType {
    ctype(CTypeKind::Integer)
}

fn void() -> CType {
    ctype(CTypeKind::Void)
}

fn pointer(pointee: CType) -> CType {
    ctype(CTypeKind::Pointer(Box::new(pointee)))
}

fn alias_ref(id: DeclarationId) -> CType {
    ctype(CTypeKind::AliasRef(id))
}

fn record_ref(id: DeclarationId) -> CType {
    ctype(CTypeKind::RecordRef(id))
}

fn enum_ref(id: DeclarationId) -> CType {
    ctype(CTypeKind::EnumRef(id))
}

fn array(element: CType, bound: ArrayBound) -> CType {
    ctype(CTypeKind::Array {
        element: Box::new(element),
        bound,
        parameter_qualifiers: TypeQualifiers::none(),
    })
}

fn fixed(element: CType) -> CType {
    array(element, ArrayBound::Fixed { elements: 3 })
}

fn fixed_prototype() -> FunctionPrototype {
    FunctionPrototype::Prototyped { variadic: false }
}

fn callback(return_type: CType, parameters: Vec<CType>) -> CType {
    ctype(CTypeKind::Function(CFunctionType {
        calling_convention: CallingConvention::Lowered,
        prototype: fixed_prototype(),
        return_type: Box::new(return_type),
        parameters: parameters.into_iter().map(|ty| CParameter { ty }).collect(),
    }))
}

fn function(id: DeclarationId, return_type: CType, parameters: Vec<CType>) -> SourceDeclaration {
    let mut ordinal = 0;
    let mut listed = Vec::new();
    for ty in parameters {
        listed.push(SourceParameter { ordinal, ty });
        ordinal += 1;
    }
    declaration(
        id,
        SourceDeclarationKind::Function(SourceFunction {
            calling_convention: CallingConvention::Lowered,
            prototype: fixed_prototype(),
            return_type,
            parameters: listed,
        }),
    )
}

fn field(ty: CType) -> SourceField {
    SourceField {
        ty,
        bit_width: None,
        attributes: vec![accepted_attribute()],
        support: SupportStatus::Supported,
    }
}

fn source_record(kind: RecordKind, fields: Vec<SourceField>) -> SourceRecord {
    SourceRecord {
        kind,
        completeness: RecordCompleteness::Complete,
        fields,
    }
}

fn record(id: DeclarationId, fields: Vec<CType>) -> SourceDeclaration {
    declaration(
        id,
        SourceDeclarationKind::Record(source_record(
            RecordKind::Struct,
            fields.into_iter().map(field).collect(),
        )),
    )
}

fn opaque(id: DeclarationId) -> SourceDeclaration {
    declaration(
        id,
        SourceDeclarationKind::Record(SourceRecord {
            kind: RecordKind::Struct,
            completeness: RecordCompleteness::Incomplete,
            fields: Vec::new(),
        }),
    )
}

fn alias(id: DeclarationId, target: CType) -> SourceDeclaration {
    declaration(
        id,
        SourceDeclarationKind::TypeAlias(SourceTypeAlias { target }),
    )
}

fn variable(id: DeclarationId, ty: CType) -> SourceDeclaration {
    declaration(
        id,
        SourceDeclarationKind::Variable(SourceVariable {
            ty,
            thread_local: false,
        }),
    )
}

fn variant(id: u64) -> SourceEnumVariant {
    SourceEnumVariant {
        id,
        value: EnumValue::Evaluated,
        support: SupportStatus::Supported,
    }
}

fn enumeration(
    id: DeclarationId,
    explicit_underlying_type: Option<CType>,
    variants: Vec<SourceEnumVariant>,
) -> SourceDeclaration {
    declaration(
        id,
        SourceDeclarationKind::Enum(SourceEnum {
            explicit_underlying_type,
            variants,
        }),
    )
}

/// The refused type: declaration, path and reason.
fn refused_type(result: GenerationResult<()>) -> (DeclarationId, String, &'static str) {
    match result.expect_err("a refusal") {
        GenerationError::UnsupportedType {
            declaration,
            path,
            reason,
        } => (declaration, path, reason),
        other => panic!("not a refused type: {other:?}"),
    }
}

/// The refused declaration and the reason.
fn refused_declaration(result: GenerationResult<()>) -> (DeclarationId, &'static str) {
    match result.expect_err("a refusal") {
        GenerationError::UnsupportedDeclaration {
            declaration,
            reason,
        } => (declaration, reason),
        other => panic!("not a refused declaration: {other:?}"),
    }
}

fn type_refusal(
    declaration: DeclarationId,
    path: &str,
    reason: &'static str,
) -> (DeclarationId, String, &'static str) {
    (declaration, path.to_owned(), reason)
}

/// The refusal of a variable of type `ty`: path and reason.
fn refused_variable(ty: CType) -> (String, &'static str) {
    let (id, path, reason) = refused_type(world(vec![variable(10, ty)]).verify());
    assert_eq!(id, 10);
    (path, reason)
}

/// The refusal of a function with the one parameter `ty`: path and reason.
fn refused_parameter(ty: CType) -> (String, &'static str) {
    let (id, path, reason) = refused_type(world(vec![function(10, void(), vec![ty])]).verify());
    assert_eq!(id, 10);
    (path, reason)
}

fn at(path: &str, reason: &'static str) -> (String, &'static str) {
    (path.to_owned(), reason)
}

#[test]
fn an_empty_world_is_accepted() {
    assert!(world(Vec::new()).verify().is_ok());
}

#[test]
fn a_world_of_every_kind_of_declaration_is_accepted() {
    let accepted = world(vec![
        function(
            70,
            void(),
            vec![
                alias_ref(40),
                record_ref(20),
                pointer(callback(void(), vec![enum_ref(30), pointer(void())])),
                array(integer(), ArrayBound::Incomplete),
            ],
        ),
        record(
            20,
            vec![
                integer(),
                fixed(enum_ref(30)),
                pointer(record_ref(20)),
                array(integer(), ArrayBound::Flexible),
            ],
        ),
        enumeration(30, Some(integer()), vec![variant(1), variant(2)]),
        alias(40, pointer(record_ref(50))),
        opaque(50),
        variable(60, ctype(CTypeKind::Floating)),
    ])
    .name_only(50);
    assert!(accepted.verify().is_ok());
}

#[test]
fn stale_evidence_is_refused_before_any_declaration() {
    let mut stale_source = world(vec![variable(10, void())]);
    stale_source.analysis.source_fingerprint = other_fingerprint();
    stale_source.analysis.target_fingerprint = other_target();
    assert!(matches!(
        stale_source.verify(),
        Err(GenerationError::SourceFingerprintMismatch)
    ));
    let mut stale_target = world(vec![variable(10, void())]);
    stale_target.analysis.target_fingerprint = other_target();
    assert!(matches!(
        stale_target.verify(),
        Err(GenerationError::TargetFingerprintMismatch)
    ));
}

#[test]
fn stale_evidence_on_one_declaration_is_refused() {
    let mut stale_source = world(vec![variable(10, integer()), variable(11, integer())]);
    stale_source.analysis.declaration_evidence[1].source_fingerprint = other_fingerprint();
    stale_source.analysis.declaration_evidence[1].target_fingerprint = other_target();
    assert!(matches!(
        stale_source.verify(),
        Err(GenerationError::SourceFingerprintMismatch)
    ));
    let mut stale_target = world(vec![variable(10, integer()), variable(11, integer())]);
    stale_target.analysis.declaration_evidence[1].target_fingerprint = other_target();
    assert!(matches!(
        stale_target.verify(),
        Err(GenerationError::TargetFingerprintMismatch)
    ));
}

#[test]
fn a_selected_declaration_must_be_in_the_package() {
    let mut missing = world(vec![variable(10, integer())]);
    missing.closure.push(ClosureEntry {
        declaration: 11,
        requirement: ClosureRequirement::Name,
    });
    let error = missing.verify().expect_err("a refusal");
    assert!(error.reason().is_none());
    assert!(matches!(
        error,
        GenerationError::MissingDeclaration { declaration: 11 }
    ));
}

#[test]
fn a_selected_declaration_needs_evidence() {
    let mut missing = world(vec![variable(10, integer()), variable(11, integer())]);
    missing.analysis.declaration_evidence.remove(0);
    assert!(matches!(
        missing.verify(),
        Err(GenerationError::MissingDeclarationEvidence { declaration: 10 })
    ));
}

#[test]
fn a_declaration_that_is_not_selected_is_not_looked_at() {
    let mut unselected = world(vec![variable(10, integer()), variable(11, void())]).without(11);
    unselected.analysis.declaration_evidence.remove(1);
    assert!(unselected.verify().is_ok());
}

#[test]
fn reconciliation_is_checked() {
    let mut partial = variable(10, integer());
    partial.support = SupportStatus::Partial;
    assert_eq!(
        refused_declaration(world(vec![partial]).verify()),
        (10, "PARC source support is not fully accepted")
    );
    let mut repeated = variable(10, integer());
    repeated.occurrences.push(SourceOccurrence {
        id: 1,
        attributes: vec![unsupported_attribute()],
    });
    assert_eq!(
        refused_declaration(world(vec![repeated]).verify()),
        (10, "reconciled declaration repeats a source occurrence")
    );
    let mut attributed = variable(10, integer());
    attributed.occurrences.push(SourceOccurrence {
        id: 2,
        attributes: vec![accepted_attribute(), unsupported_attribute()],
    });
    assert_eq!(
        refused_declaration(world(vec![attributed]).verify()),
        (10, "an ABI-relevant declaration attribute is unsupported")
    );
}

#[test]
fn an_extern_needs_a_planned_provider_of_its_exact_symbol() {
    let extern_world = || world(vec![variable(10, integer())]);

    let mut unresolved = extern_world();
    unresolved.analysis.declaration_evidence[0].provider = ProviderAssessment::Unresolved;
    unresolved.analysis.declaration_evidence[0].symbol = SymbolAssessment::Inexact;
    assert_eq!(
        refused_declaration(unresolved.verify()),
        (10, "selected extern has no single resolved provider")
    );

    let mut inexact = extern_world();
    inexact.analysis.declaration_evidence[0].symbol = SymbolAssessment::Inexact;
    assert_eq!(
        refused_declaration(inexact.verify()),
        (10, "selected extern has no exact provider-bound symbol")
    );

    let mut elsewhere = extern_world();
    elsewhere.analysis.declaration_evidence[0].symbol = SymbolAssessment::Exact {
        symbol: ProviderSymbol {
            provider: PROVIDER + 1,
        },
    };
    assert_eq!(
        refused_declaration(elsewhere.verify()),
        (10, "selected extern has no exact provider-bound symbol")
    );

    let mut unplanned = extern_world();
    unplanned.analysis.link_plan = vec![
        LinkAtom::Directive,
        LinkAtom::Artifact(LinkArtifact {
            provider_id: PROVIDER + 1,
        }),
    ];
    assert_eq!(
        refused_declaration(unplanned.verify()),
        (10, "selected extern provider is absent from the ordered link plan")
    );
}

#[test]
fn only_an_extern_needs_a_provider() {
    let mut internal = variable(10, integer());
    internal.linkage = Linkage::Internal;
    let mut unlinked = variable(11, integer());
    unlinked.linkage = Linkage::Unlinked;
    let mut local = world(vec![internal, unlinked, alias(12, integer())]);
    for entry in &mut local.analysis.declaration_evidence {
        entry.provider = ProviderAssessment::Unresolved;
        entry.symbol = SymbolAssessment::Inexact;
    }
    assert!(local.verify().is_ok());
}

#[test]
fn functions_are_refused_outside_the_certified_abi() {
    let shaped = |prototype: FunctionPrototype, calling_convention: CallingConvention| {
        world(vec![declaration(
            10,
            SourceDeclarationKind::Function(SourceFunction {
                calling_convention,
                prototype,
                return_type: void(),
                parameters: Vec::new(),
            }),
        )])
        .verify()
    };
    for prototype in [
        FunctionPrototype::Prototyped { variadic: true },
        FunctionPrototype::Unspecified,
    ] {
        assert_eq!(
            refused_declaration(shaped(prototype, CallingConvention::Lowered)),
            (
                10,
                "variadic or unspecified function prototypes are outside the certified ABI"
            )
        );
    }
    assert_eq!(
        refused_declaration(shaped(
            FunctionPrototype::Unspecified,
            CallingConvention::Refused {
                reason: "vectorcall has no Rust ABI"
            }
        )),
        (10, "vectorcall has no Rust ABI")
    );
    assert!(shaped(fixed_prototype(), CallingConvention::Lowered).is_ok());
}

#[test]
fn calling_conventions_are_lowered_or_refused() {
    assert!(lower_calling_convention(3, &CallingConvention::Lowered).is_ok());
    let refused = CallingConvention::Refused { reason: "pascal" };
    assert_eq!(
        refused_declaration(lower_calling_convention(3, &refused)),
        (3, "pascal")
    );
}

#[test]
fn the_return_type_comes_before_the_parameters() {
    assert_eq!(
        refused_type(world(vec![function(10, fixed(void()), vec![void()])]).verify()),
        type_refusal(
            10,
            "function.return_type.element",
            "void appears in a value position"
        )
    );
    assert_eq!(
        refused_parameter(void()),
        at("function.parameters[0]", "void appears in a value position")
    );
}

#[test]
fn parameters_are_located_by_their_ordinal() {
    let mut located = function(10, void(), vec![integer(), pointer(ctype(CTypeKind::Complex))]);
    if let SourceDeclarationKind::Function(function) = &mut located.kind {
        function.parameters[1].ordinal = 4_294_967_295;
    }
    assert_eq!(
        refused_type(world(vec![located]).verify()),
        type_refusal(
            10,
            "function.parameters[4294967295].pointee",
            "complex C types are explicitly rejected"
        )
    );
}

#[test]
fn type_metadata_is_checked() {
    let mut everything = void();
    everything.support = SupportStatus::Rejected;
    everything.qualifiers.is_atomic = true;
    everything.qualifiers.is_volatile = true;
    everything.nullability = Nullability::NonNull;
    assert_eq!(
        refused_variable(everything),
        at("variable.type", "type support is not fully accepted")
    );
    let mut atomic = void();
    atomic.qualifiers.is_atomic = true;
    atomic.qualifiers.is_volatile = true;
    assert_eq!(
        refused_variable(atomic),
        at("variable.type", "_Atomic semantics are not modeled")
    );
    let mut volatile = void();
    volatile.qualifiers.is_volatile = true;
    volatile.nullability = Nullability::Nullable;
    assert_eq!(
        refused_variable(volatile),
        at("variable.type", "volatile semantics are not modeled")
    );
    let mut nullable = void();
    nullable.nullability = Nullability::Nullable;
    assert_eq!(
        refused_variable(nullable),
        at("variable.type", "nullability appears on a non-pointer type")
    );
}

#[test]
fn pointers_may_speak_of_null_and_be_const_or_restrict() {
    let mut ty = pointer(integer());
    ty.nullability = Nullability::NonNull;
    ty.qualifiers.is_const = true;
    ty.qualifiers.is_restrict = true;
    assert!(world(vec![variable(10, ty)]).verify().is_ok());
    let mut function = callback(void(), Vec::new());
    function.nullability = Nullability::Nullable;
    assert!(world(vec![variable(10, pointer(function))]).verify().is_ok());
}

#[test]
fn arrays_are_refused_without_a_representation() {
    let reason = "array bound has no certified Rust ABI representation";
    for bound in [
        ArrayBound::Fixed { elements: 0 },
        ArrayBound::Incomplete,
        ArrayBound::StaticMinimum,
    ] {
        assert_eq!(
            refused_variable(array(integer(), bound)),
            at("variable.type", reason)
        );
    }
    assert_eq!(
        refused_variable(pointer(array(integer(), ArrayBound::Flexible))),
        at("variable.type.pointee", reason)
    );
    assert_eq!(
        refused_parameter(array(integer(), ArrayBound::Fixed { elements: 0 })),
        at("function.parameters[0]", reason)
    );
    for bound in [
        ArrayBound::Incomplete,
        ArrayBound::Flexible,
        ArrayBound::StaticMinimum,
        ArrayBound::Fixed { elements: 1 },
    ] {
        assert!(world(vec![function(10, void(), vec![array(integer(), bound)])])
            .verify()
            .is_ok());
    }
}

#[test]
fn array_qualifiers_belong_to_parameters() {
    let qualified = || {
        let mut parameter_qualifiers = TypeQualifiers::none();
        parameter_qualifiers.is_const = true;
        ctype(CTypeKind::Array {
            element: Box::new(integer()),
            bound: ArrayBound::Fixed { elements: 0 },
            parameter_qualifiers,
        })
    };
    assert_eq!(
        refused_variable(qualified()),
        at(
            "variable.type",
            "parameter-only array qualifiers appear outside a parameter"
        )
    );
    assert_eq!(
        refused_parameter(qualified()),
        at(
            "function.parameters[0]",
            "array bound has no certified Rust ABI representation"
        )
    );
}

#[test]
fn an_array_parameter_points_to_its_elements() {
    let by_pointer = world(vec![
        opaque(5),
        function(10, void(), vec![array(record_ref(5), ArrayBound::Incomplete)]),
    ])
    .name_only(5);
    assert!(by_pointer.verify().is_ok());
    let by_value = world(vec![opaque(5), variable(10, fixed(record_ref(5)))]).name_only(5);
    assert_eq!(
        refused_type(by_value.verify()),
        type_refusal(10, "variable.type.element", "opaque record is used by value")
    );
}

#[test]
fn callbacks_are_refused_outside_the_certified_abi() {
    assert_eq!(
        refused_variable(callback(void(), Vec::new())),
        at(
            "variable.type",
            "bare function type appears outside pointer/parameter adjustment"
        )
    );
    let shaped = |prototype: FunctionPrototype, calling_convention: CallingConvention| {
        ctype(CTypeKind::Function(CFunctionType {
            calling_convention,
            prototype,
            return_type: Box::new(void()),
            parameters: Vec::new(),
        }))
    };
    assert_eq!(
        refused_parameter(shaped(
            FunctionPrototype::Prototyped { variadic: true },
            CallingConvention::Lowered
        )),
        at(
            "function.parameters[0]",
            "variadic or unspecified callbacks are explicitly rejected"
        )
    );
    assert_eq!(
        refused_declaration(
            world(vec![variable(
                10,
                pointer(shaped(
                    FunctionPrototype::Unspecified,
                    CallingConvention::Refused { reason: "fastcall" }
                ))
            )])
            .verify()
        ),
        (10, "fastcall")
    );
    assert_eq!(
        refused_variable(pointer(callback(fixed(void()), vec![void()]))),
        at(
            "variable.type.pointee.return_type.element",
            "void appears in a value position"
        )
    );
    let mut parameters: Vec<CType> = Vec::new();
    for _ in 0..10 {
        parameters.push(integer());
    }
    parameters.push(ctype(CTypeKind::Unsupported));
    assert_eq!(
        refused_variable(pointer(callback(void(), parameters))),
        at(
            "variable.type.pointee.parameters[10]",
            "unsupported PARC type node entered the strict closure"
        )
    );
}

#[test]
fn references_must_name_declarations_of_their_kind() {
    let referring = |ty: CType| world(vec![variable(5, integer()), variable(10, ty)]).verify();
    assert_eq!(
        refused_type(referring(alias_ref(5))),
        type_refusal(
            10,
            "variable.type",
            "AliasRef does not reference a type-alias declaration"
        )
    );
    assert_eq!(
        refused_type(referring(pointer(record_ref(5)))),
        type_refusal(
            10,
            "variable.type.pointee",
            "RecordRef does not reference a record declaration"
        )
    );
    assert_eq!(
        refused_type(referring(enum_ref(5))),
        type_refusal(
            10,
            "variable.type",
            "EnumRef does not reference an enum declaration"
        )
    );
}

#[test]
fn references_stay_in_the_selected_world() {
    for ty in [alias_ref(5), pointer(record_ref(5)), enum_ref(5)] {
        let escaping = world(vec![alias(5, integer()), variable(10, ty)]).without(5);
        assert_eq!(
            refused_type(escaping.verify()),
            type_refusal(
                10,
                "declaration_graph",
                "named type reference escapes the selected closed world"
            )
        );
    }
}

#[test]
fn thread_local_and_unsupported_declarations_are_refused() {
    let local = declaration(
        10,
        SourceDeclarationKind::Variable(SourceVariable {
            ty: void(),
            thread_local: true,
        }),
    );
    assert_eq!(
        refused_declaration(world(vec![local]).verify()),
        (10, "thread-local globals are explicitly rejected")
    );
    let unsupported = declaration(10, SourceDeclarationKind::Unsupported);
    assert_eq!(
        refused_declaration(world(vec![unsupported]).verify()),
        (10, "unsupported source declaration entered the strict closure")
    );
}

#[test]
fn opaque_handles_are_named_and_never_used_by_value() {
    let handles = |user: SourceDeclaration| {
        world(vec![opaque(5), alias(6, record_ref(5)), user])
            .name_only(5)
            .verify()
    };
    assert!(handles(function(10, pointer(alias_ref(6)), vec![pointer(alias_ref(6))])).is_ok());
    assert_eq!(
        refused_type(handles(function(10, void(), vec![alias_ref(6)]))),
        type_refusal(
            10,
            "function.parameters[0].alias_target",
            "opaque record is used by value"
        )
    );
    assert_eq!(
        refused_type(handles(function(10, alias_ref(6), Vec::new()))),
        type_refusal(
            10,
            "function.return_type.alias_target",
            "opaque record is used by value"
        )
    );
    assert_eq!(
        refused_type(handles(variable(10, fixed(alias_ref(6))))),
        type_refusal(
            10,
            "variable.type.element.alias_target",
            "opaque record is used by value"
        )
    );
}

#[test]
fn an_alias_of_void_names_nothing() {
    assert_eq!(
        refused_type(world(vec![alias(5, void())]).verify()),
        type_refusal(5, "type_alias.target", "void appears in a value position")
    );
    assert!(world(vec![alias(5, pointer(void()))]).verify().is_ok());
}

#[test]
fn alias_cycles_are_refused() {
    assert_eq!(
        refused_type(world(vec![alias(5, pointer(alias_ref(5)))]).verify()),
        type_refusal(5, "alias_graph", "type-alias cycle detected")
    );
    let pair = world(vec![
        alias(5, alias_ref(6)),
        alias(6, pointer(callback(void(), vec![alias_ref(5)]))),
    ]);
    assert_eq!(
        refused_type(pair.verify()),
        type_refusal(5, "alias_graph", "type-alias cycle detected")
    );
}

#[test]
fn an_alias_may_be_used_twice() {
    let twice = world(vec![
        alias(5, integer()),
        function(10, alias_ref(5), vec![alias_ref(5), alias_ref(5)]),
    ]);
    assert!(twice.verify().is_ok());
}

#[test]
fn records_used_by_value_are_entered() {
    let nested = world(vec![
        record(5, vec![integer(), pointer(ctype(CTypeKind::Complex))]),
        variable(3, record_ref(5)),
    ]);
    assert_eq!(
        refused_type(nested.verify()),
        type_refusal(
            5,
            "record.fields[1].pointee",
            "complex C types are explicitly rejected"
        )
    );
}

#[test]
fn records_that_hold_themselves_are_refused() {
    assert_eq!(
        refused_declaration(world(vec![record(5, vec![record_ref(5)])]).verify()),
        (5, "by-value record dependency cycle detected")
    );
    let through_an_alias = world(vec![
        record(5, vec![integer(), fixed(alias_ref(7))]),
        record(6, vec![record_ref(5)]),
        alias(7, record_ref(6)),
    ]);
    assert_eq!(
        refused_declaration(through_an_alias.verify()),
        (5, "by-value record dependency cycle detected")
    );
    assert!(world(vec![record(5, vec![pointer(record_ref(5))])])
        .verify()
        .is_ok());
}

#[test]
fn records_need_a_definition_with_fields() {
    assert_eq!(
        refused_declaration(world(vec![opaque(5)]).verify()),
        (5, "by-value record is incomplete or opaque")
    );
    assert!(world(vec![opaque(5)]).name_only(5).verify().is_ok());
    assert_eq!(
        refused_declaration(world(vec![record(5, Vec::new())]).verify()),
        (5, "empty C records are extension-dependent")
    );
}

#[test]
fn fields_are_refused_outside_the_certified_abi() {
    let of = |kind: RecordKind, fields: Vec<SourceField>| {
        world(vec![declaration(
            5,
            SourceDeclarationKind::Record(source_record(kind, fields)),
        )])
        .verify()
    };
    let mut partial = field(void());
    partial.support = SupportStatus::Partial;
    partial.bit_width = Some(3);
    let mut attributed = field(void());
    attributed.attributes.push(unsupported_attribute());
    for refused in [partial, attributed] {
        assert_eq!(
            refused_declaration(of(RecordKind::Struct, vec![field(integer()), refused])),
            (5, "record field is not fully supported")
        );
    }
    let mut bits = field(array(void(), ArrayBound::Flexible));
    bits.bit_width = Some(0);
    assert_eq!(
        refused_declaration(of(RecordKind::Union, vec![bits])),
        (5, "bitfields are explicitly rejected")
    );
    let flexible = || field(array(integer(), ArrayBound::Flexible));
    let misplaced = "a flexible array is legal only as the final struct field";
    assert_eq!(
        refused_declaration(of(RecordKind::Struct, vec![flexible(), field(integer())])),
        (5, misplaced)
    );
    assert_eq!(
        refused_declaration(of(RecordKind::Union, vec![flexible()])),
        (5, misplaced)
    );
    assert!(of(RecordKind::Struct, vec![field(integer()), flexible()]).is_ok());
    assert!(of(RecordKind::Union, vec![field(integer()), field(pointer(integer()))]).is_ok());
}

#[test]
fn records_and_enums_need_a_current_layout() {
    let record_world = || world(vec![record(5, vec![integer()])]);
    let enum_world = || world(vec![enumeration(5, None, Vec::new())]);
    for mut missing in [record_world(), enum_world()] {
        missing.analysis.layouts.clear();
        assert!(matches!(
            missing.verify(),
            Err(GenerationError::MissingLayoutEvidence { declaration: 5 })
        ));
    }
    let mut as_enum = record_world();
    as_enum.analysis.layouts[0].kind = LayoutKind::Enum;
    let mut as_record = enum_world();
    as_record.analysis.layouts[0].kind = LayoutKind::Record;
    let mut stale_source = record_world();
    stale_source.analysis.layouts[0].source_fingerprint = other_fingerprint();
    let mut stale_target = enum_world();
    stale_target.analysis.layouts[0].target_fingerprint = other_target();
    for stale in [as_enum, as_record, stale_source, stale_target] {
        let error = stale.verify().expect_err("a refusal");
        assert_eq!(
            error.reason(),
            Some("layout kind or source/target fingerprint is stale")
        );
        assert!(matches!(
            error,
            GenerationError::LayoutMismatch { declaration: 5, .. }
        ));
    }
}

#[test]
fn a_use_of_an_enum_needs_its_layout() {
    let mut missing = world(vec![
        variable(3, pointer(enum_ref(5))),
        enumeration(5, None, vec![variant(1)]),
    ]);
    missing.analysis.layouts.clear();
    assert!(matches!(
        missing.verify(),
        Err(GenerationError::MissingLayoutEvidence { declaration: 5 })
    ));
}

#[test]
fn enum_variants_are_distinct_supported_and_evaluated() {
    let of = |variants: Vec<SourceEnumVariant>| {
        world(vec![enumeration(5, None, variants)]).verify()
    };
    let mut rejected = variant(2);
    rejected.support = SupportStatus::Rejected;
    rejected.value = EnumValue::Unevaluated;
    for refused in [variant(1), rejected] {
        assert_eq!(
            refused_declaration(of(vec![variant(1), refused])),
            (5, "enum variants must be distinct and fully supported")
        );
    }
    let mut unevaluated = variant(2);
    unevaluated.value = EnumValue::Unevaluated;
    assert_eq!(
        refused_declaration(of(vec![variant(1), unevaluated, variant(1)])),
        (5, "enum values must be evaluated exactly")
    );
    assert!(of(vec![variant(2), variant(1)]).is_ok());
    assert_eq!(
        refused_type(
            world(vec![enumeration(
                5,
                Some(void()),
                vec![variant(1), variant(1)]
            )])
            .verify()
        ),
        type_refusal(
            5,
            "enum.explicit_underlying_type",
            "void appears in a value position"
        )
    );
}

#[test]
fn the_least_refused_declaration_decides() {
    let refused = world(vec![variable(12, void()), variable(11, void()), variable(10, integer())]);
    let (id, _, _) = refused_type(refused.verify());
    assert_eq!(id, 11);
}

#[test]
fn every_declaration_is_admitted_before_any_type_is_looked_at() {
    let mut unsupported = variable(12, integer());
    unsupported.support = SupportStatus::Rejected;
    let refused = world(vec![variable(10, void()), unsupported]);
    assert_eq!(
        refused_declaration(refused.verify()),
        (12, "PARC source support is not fully accepted")
    );
}

#[test]
fn the_later_closure_entry_counts() {
    let entry = |requirement: ClosureRequirement| ClosureEntry {
        declaration: 5,
        requirement,
    };
    let mut needed = world(vec![opaque(5)]);
    needed.closure = vec![
        entry(ClosureRequirement::Definition),
        entry(ClosureRequirement::Name),
    ];
    assert!(needed.verify().is_ok());
    let mut defined = world(vec![opaque(5)]);
    defined.closure = vec![
        entry(ClosureRequirement::Name),
        entry(ClosureRequirement::Definition),
    ];
    assert_eq!(
        refused_declaration(defined.verify()),
        (5, "by-value record is incomplete or opaque")
    );
}

/// Runs `check` on a verifier for `w`.
fn with_verifier(w: World, check: fn(&SourceVerifier)) {
    let evidence = ValidatedLinkAnalysis::try_new(w.analysis).expect("ordered evidence");
    let request = GenerationRequest {
        source: &w.source,
        evidence: &evidence,
        declaration_closure: w.closure,
    };
    let verifier = SourceVerifier::new(&w.source, &evidence, &request).expect("fresh evidence");
    check(&verifier);
}

#[test]
fn a_walk_gives_back_its_aliases_and_leaves_open_the_records_it_was_refused_in() {
    let w = world(vec![
        record(5, vec![record_ref(6)]),
        record(6, vec![alias_ref(7)]),
        alias(7, void()),
    ]);
    with_verifier(w, |verifier| {
        let mut aliases = vec![1];
        let mut records = vec![2];
        assert_eq!(
            refused_type(verifier.verify_type(
                9,
                "here",
                &record_ref(5),
                TypePosition::ByValue,
                &mut aliases,
                &mut records
            )),
            type_refusal(
                6,
                "record.fields[0].alias_target",
                "void appears in a value position"
            )
        );
        assert_eq!(aliases, vec![1]);
        assert_eq!(records, vec![2, 5, 6]);
    });
}

#[test]
fn a_record_refused_for_a_field_itself_is_closed_again() {
    let mut bits = field(integer());
    bits.bit_width = Some(1);
    let w = world(vec![declaration(
        5,
        SourceDeclarationKind::Record(source_record(RecordKind::Struct, vec![bits])),
    )]);
    with_verifier(w, |verifier| {
        let mut aliases = Vec::new();
        let mut records = vec![2];
        assert_eq!(
            refused_declaration(verifier.verify_type(
                9,
                "here",
                &record_ref(5),
                TypePosition::Return,
                &mut aliases,
                &mut records
            )),
            (5, "bitfields are explicitly rejected")
        );
        assert_eq!(records, vec![2]);
    });
}

#[test]
fn an_accepted_walk_gives_back_both_stacks() {
    let w = world(vec![record(5, vec![alias_ref(6)]), alias(6, integer())]);
    with_verifier(w, |verifier| {
        let mut aliases = vec![8];
        let mut records = vec![9];
        assert!(verifier
            .verify_type(
                9,
                "here",
                &record_ref(5),
                TypePosition::ByValue,
                &mut aliases,
                &mut records
            )
            .is_ok());
        assert_eq!(aliases, vec![8]);
        assert_eq!(records, vec![9]);
    });
}

#[test]
fn what_leads_to_a_use_is_not_opened_again() {
    let w = world(vec![record(5, vec![integer()]), alias(6, integer())]);
    with_verifier(w, |verifier| {
        assert_eq!(
            refused_type(verifier.verify_type(
                9,
                "here",
                &alias_ref(6),
                TypePosition::ByValue,
                &mut vec![6],
                &mut Vec::new()
            )),
            type_refusal(9, "alias_graph", "type-alias cycle detected")
        );
        assert_eq!(
            refused_declaration(verifier.verify_type(
                9,
                "here",
                &record_ref(5),
                TypePosition::ByValue,
                &mut Vec::new(),
                &mut vec![5]
            )),
            (5, "by-value record dependency cycle detected")
        );
    });
}

#[test]
fn a_record_outside_the_selection_has_no_requirement() {
    with_verifier(world(vec![record(5, vec![integer()])]).without(5), |verifier| {
        let outside = record(5, vec![integer()]);
        assert_eq!(
            refused_type(verifier.verify_declaration(&outside, &mut Vec::new(), &mut Vec::new())),
            type_refusal(
                5,
                "declaration_graph",
                "declaration requirement is absent from the selected closed world"
            )
        );
    });
}

#[test]
fn the_selection_is_listed_in_order_and_once() {
    let mut w = world(vec![
        variable(30, integer()),
        variable(4, integer()),
        variable(12, integer()),
    ]);
    w.closure.push(ClosureEntry {
        declaration: 30,
        requirement: ClosureRequirement::Name,
    });
    with_verifier(w, |verifier| {
        assert_eq!(verifier.selected(), vec![4, 12, 30]);
    });
}

use std::collections::BTreeMap;

use gerc::error::{GenerationError, GenerationResult};
use gerc::position::TypePosition;
use gerc::projection::{
    RustEnum, RustField, RustFunction, RustItem, RustParameter, RustRecord, RustRecordKind,
    RustScalar, RustType, RustTypeAlias, RustTypeKind, RustVariable, ValidatedRustProjection,
};
use gerc::projection_verifier::{index_items, verify_item, verify_projection, verify_rust_type};
use gerc::source::{
    DeclarationId, Nullability, RecordCompleteness, RecordKind, SupportStatus, TypeQualifiers,
};

const MISSING: DeclarationId = 1;
const OPAQUE: DeclarationId = 2;
const OPAQUE_ALIAS: DeclarationId = 3;
const CYCLE_A: DeclarationId = 4;
const CYCLE_B: DeclarationId = 5;
const BAD_FLEXIBLE: DeclarationId = 6;
const BAD_UNION: DeclarationId = 7;

fn rust_type(kind: RustTypeKind) -> RustType {
    RustType {
        qualifiers: TypeQualifiers::none(),
        nullability: Nullability::Unspecified,
        support: SupportStatus::Supported,
        kind,
    }
}

fn scalar() -> RustType {
    rust_type(RustTypeKind::Scalar(RustScalar::CInt {
        storage_bits: 32,
        alignment_bits: 32,
    }))
}

fn void() -> RustType {
    rust_type(RustTypeKind::Void)
}

fn pointer(pointee: RustType) -> RustType {
    rust_type(RustTypeKind::Pointer(Box::new(pointee)))
}

fn flexible() -> RustType {
    rust_type(RustTypeKind::FlexibleArray {
        element: Box::new(scalar()),
    })
}

fn array(element: RustType, elements: u64) -> RustType {
    rust_type(RustTypeKind::FixedArray {
        element: Box::new(element),
        elements,
    })
}

fn callback(parameters: Vec<RustType>, return_type: RustType, variadic: bool) -> RustType {
    rust_type(RustTypeKind::FunctionPointer {
        parameters,
        return_type: Box::new(return_type),
        variadic,
    })
}

fn named_type(declaration: DeclarationId, name: &str) -> RustType {
    rust_type(RustTypeKind::Named {
        declaration,
        rust_name: name.to_owned(),
    })
}

fn projection(items: Vec<RustItem>) -> ValidatedRustProjection {
    ValidatedRustProjection { items }
}

fn field(name: &str, ty: RustType, offset_bits: u64) -> RustField {
    RustField {
        rust_name: name.to_owned(),
        ty,
        offset_bits,
        size_bits: 32,
        alignment_bits: Some(32),
        support: SupportStatus::Supported,
    }
}

fn record(
    declaration: DeclarationId,
    name: &str,
    kind: RustRecordKind,
    fields: Vec<RustField>,
) -> RustRecord {
    RustRecord {
        declaration,
        rust_name: name.to_owned(),
        kind,
        source_kind: match kind {
            RustRecordKind::Union => RecordKind::Union,
            _ => RecordKind::Struct,
        },
        source_completeness: RecordCompleteness::Complete,
        fields,
        size_bits: Some(32),
        alignment_bits: Some(32),
        packing_bits: None,
    }
}

fn opaque(declaration: DeclarationId, name: &str) -> RustRecord {
    RustRecord {
        declaration,
        rust_name: name.to_owned(),
        kind: RustRecordKind::Opaque,
        source_kind: RecordKind::Struct,
        source_completeness: RecordCompleteness::Incomplete,
        fields: Vec::new(),
        size_bits: None,
        alignment_bits: None,
        packing_bits: None,
    }
}

fn alias(declaration: DeclarationId, name: &str, target: RustType) -> RustItem {
    RustItem::TypeAlias(RustTypeAlias {
        declaration,
        rust_name: name.to_owned(),
        target,
    })
}

fn variable(declaration: DeclarationId, name: &str, ty: RustType) -> RustItem {
    RustItem::Variable(RustVariable {
        declaration,
        rust_name: name.to_owned(),
        ty,
        thread_local: false,
    })
}

fn function(parameters: Vec<RustType>, return_type: RustType, variadic: bool) -> RustItem {
    RustItem::Function(RustFunction {
        declaration: 30,
        rust_name: "function".to_owned(),
        parameters: parameters
            .into_iter()
            .map(|ty| RustParameter {
                rust_name: "parameter".to_owned(),
                ty,
            })
            .collect(),
        return_type,
        variadic,
    })
}

/// The broken invariant; any other error is a failure.
fn broken(result: GenerationResult<()>) -> &'static str {
    match result.expect_err("a refusal") {
        GenerationError::ProjectionInvariant { reason } => reason,
        other => panic!("not a broken invariant: {other:?}"),
    }
}

fn broken_alone(ty: &RustType, position: TypePosition) -> &'static str {
    broken(verify_rust_type(
        ty,
        position,
        &BTreeMap::new(),
        &mut Vec::new(),
    ))
}

#[test]
fn post_verifier_rejects_unknown_names_alias_cycles_and_opaque_by_value() {
    let unknown = named_type(MISSING, "missing");
    let error = verify_rust_type(
        &unknown,
        TypePosition::ByValue,
        &BTreeMap::new(),
        &mut Vec::new(),
    )
    .expect_err("unknown named type must fail closed");
    assert!(error.reason().unwrap().contains("no declaration"));

    let opaque_projection = projection(vec![
        RustItem::Record(opaque(OPAQUE, "opaque")),
        alias(OPAQUE_ALIAS, "opaque_alias", named_type(OPAQUE, "opaque")),
    ]);
    // `typedef struct T T;` names the record; it does not use one.
    verify_projection(&opaque_projection).expect("naming an opaque record is not using one");

    // A use of that alias by value is still refused: the alias is looked
    // through at the position of the use.
    let mut aliases = Vec::new();
    let items = opaque_projection
        .items
        .iter()
        .map(|item| (item.declaration(), item))
        .collect::<BTreeMap<_, _>>();
    let alias_use = named_type(OPAQUE_ALIAS, "opaque_alias");
    assert!(
        verify_rust_type(&alias_use, TypePosition::ByValue, &items, &mut aliases)
            .expect_err("opaque behind an alias is still opaque by value")
            .reason()
            .unwrap()
            .contains("opaque")
    );
    assert!(verify_rust_type(
        &alias_use,
        TypePosition::BehindPointer,
        &items,
        &mut Vec::new()
    )
    .is_ok());

    let cycle_projection = projection(vec![
        alias(CYCLE_A, "cycle_a", named_type(CYCLE_B, "cycle_b")),
        alias(CYCLE_B, "cycle_b", named_type(CYCLE_A, "cycle_a")),
    ]);
    assert!(verify_projection(&cycle_projection)
        .expect_err("alias cycle must fail")
        .reason()
        .unwrap()
        .contains("cycle"));
}

#[test]
fn post_verifier_rejects_flexible_array_placement_and_nonzero_union_offsets() {
    let flexible_projection = projection(vec![RustItem::Record(record(
        BAD_FLEXIBLE,
        "bad_flexible",
        RustRecordKind::Struct,
        vec![field("tail", flexible(), 0), field("after", scalar(), 0)],
    ))]);
    assert!(verify_projection(&flexible_projection)
        .expect_err("non-tail flexible member must fail")
        .reason()
        .unwrap()
        .contains("flexible"));

    let union_projection = projection(vec![RustItem::Record(record(
        BAD_UNION,
        "bad_union",
        RustRecordKind::Union,
        vec![field("member", scalar(), 32)],
    ))]);
    assert!(verify_projection(&union_projection)
        .expect_err("nonzero union offset must fail")
        .reason()
        .unwrap()
        .contains("union"));
}

#[test]
fn an_empty_projection_is_accepted() {
    assert!(verify_projection(&projection(Vec::new())).is_ok());
}

#[test]
fn a_projection_of_every_kind_of_item_is_accepted() {
    let accepted = projection(vec![
        RustItem::Record(record(
            10,
            "payload",
            RustRecordKind::Struct,
            vec![field("head", scalar(), 0), field("tail", flexible(), 32)],
        )),
        RustItem::Record(record(
            11,
            "choice",
            RustRecordKind::Union,
            vec![field("one", scalar(), 0), field("other", array(scalar(), 1), 0)],
        )),
        RustItem::Enum(RustEnum {
            declaration: 12,
            rust_name: "mode".to_owned(),
            storage: RustScalar::CInt {
                storage_bits: 32,
                alignment_bits: 32,
            },
        }),
        alias(13, "handle", pointer(void())),
        variable(14, "global", named_type(10, "payload")),
        function(
            vec![
                named_type(13, "handle"),
                callback(vec![named_type(12, "mode")], void(), false),
            ],
            void(),
            false,
        ),
    ]);
    assert!(verify_projection(&accepted).is_ok());
}

#[test]
fn a_repeated_declaration_is_refused_before_any_item() {
    let repeated = projection(vec![
        function(Vec::new(), void(), true),
        variable(30, "other", scalar()),
    ]);
    assert_eq!(
        broken(verify_projection(&repeated)),
        "post-lowering projection repeats a declaration"
    );
}

#[test]
fn the_first_refused_item_decides() {
    let first = projection(vec![
        variable(40, "first", array(scalar(), 0)),
        function(Vec::new(), void(), true),
    ]);
    assert_eq!(
        broken(verify_projection(&first)),
        "fixed array has zero elements"
    );
}

#[test]
fn types_are_refused_where_they_do_not_belong() {
    assert_eq!(
        broken_alone(&void(), TypePosition::ByValue),
        "void remains in a post-lowering value position"
    );
    assert_eq!(
        broken_alone(&void(), TypePosition::Parameter),
        "void remains in a post-lowering value position"
    );
    assert_eq!(
        broken_alone(&void(), TypePosition::AliasTarget),
        "void remains in a post-lowering value position"
    );
    assert_eq!(
        broken_alone(&array(scalar(), 0), TypePosition::ByValue),
        "fixed array has zero elements"
    );
    assert_eq!(
        broken_alone(&callback(Vec::new(), void(), true), TypePosition::ByValue),
        "post-lowering callback is variadic"
    );
    assert_eq!(
        broken_alone(
            &callback(vec![void()], array(scalar(), 0), false),
            TypePosition::ByValue
        ),
        "void remains in a post-lowering value position"
    );
    assert_eq!(
        broken_alone(
            &callback(vec![scalar()], array(scalar(), 0), false),
            TypePosition::ByValue
        ),
        "fixed array has zero elements"
    );
    let mut partial = pointer(array(scalar(), 0));
    partial.support = SupportStatus::Partial;
    assert_eq!(
        broken_alone(&partial, TypePosition::ByValue),
        "post-lowering type retains rejected/partial support"
    );
}

#[test]
fn behind_a_pointer_everything_is_accepted_that_is_accepted_anywhere() {
    let items = BTreeMap::new();
    for position in [
        TypePosition::ByValue,
        TypePosition::Return,
        TypePosition::Parameter,
        TypePosition::AliasTarget,
        TypePosition::BehindPointer,
    ] {
        for ty in [
            void(),
            scalar(),
            pointer(void()),
            array(scalar(), 3),
            flexible(),
            callback(vec![scalar()], void(), false),
        ] {
            if verify_rust_type(&ty, position, &items, &mut Vec::new()).is_ok() {
                assert!(verify_rust_type(
                    &ty,
                    TypePosition::BehindPointer,
                    &items,
                    &mut Vec::new()
                )
                .is_ok());
            }
        }
    }
    assert!(verify_rust_type(&void(), TypePosition::Return, &items, &mut Vec::new()).is_ok());
    assert!(
        verify_rust_type(&void(), TypePosition::BehindPointer, &items, &mut Vec::new()).is_ok()
    );
}

#[test]
fn named_types_must_name_a_type_by_its_name() {
    let all = vec![variable(50, "value", scalar()), alias(51, "alias", scalar())];
    let items = index_items(&all);
    let mut aliases = Vec::new();
    assert_eq!(
        broken(verify_rust_type(
            &named_type(50, "value"),
            TypePosition::BehindPointer,
            &items,
            &mut aliases
        )),
        "named type references a value declaration"
    );
    assert_eq!(
        broken(verify_rust_type(
            &named_type(51, "other"),
            TypePosition::ByValue,
            &items,
            &mut aliases
        )),
        "post-lowering named type carries a stale Rust identifier"
    );
    assert!(verify_rust_type(
        &named_type(51, "alias"),
        TypePosition::ByValue,
        &items,
        &mut aliases
    )
    .is_ok());
    assert!(aliases.is_empty());
}

#[test]
fn an_alias_that_leads_to_a_use_is_not_looked_through_again() {
    let all = vec![alias(51, "alias", scalar())];
    let items = index_items(&all);
    let mut aliases = vec![9, 51];
    assert_eq!(
        broken(verify_rust_type(
            &named_type(51, "alias"),
            TypePosition::ByValue,
            &items,
            &mut aliases
        )),
        "post-lowering type-alias cycle detected"
    );
    assert_eq!(aliases, vec![9, 51]);
    assert!(verify_rust_type(
        &named_type(51, "alias"),
        TypePosition::ByValue,
        &items,
        &mut vec![9]
    )
    .is_ok());
}

#[test]
fn an_alias_cycle_behind_pointers_is_refused() {
    let cycle = projection(vec![
        alias(60, "a", pointer(callback(vec![named_type(61, "b")], void(), false))),
        alias(61, "b", pointer(named_type(60, "a"))),
    ]);
    assert_eq!(
        broken(verify_projection(&cycle)),
        "post-lowering type-alias cycle detected"
    );
}

#[test]
fn a_record_may_hold_a_pointer_to_itself() {
    let list = projection(vec![RustItem::Record(record(
        62,
        "node",
        RustRecordKind::Struct,
        vec![field("next", pointer(named_type(62, "node")), 0)],
    ))]);
    assert!(verify_projection(&list).is_ok());
}

#[test]
fn a_use_of_an_alias_is_judged_as_a_use_of_its_target() {
    let all = vec![
        RustItem::Record(opaque(OPAQUE, "opaque")),
        alias(63, "inner", named_type(OPAQUE, "opaque")),
        alias(64, "outer", named_type(63, "inner")),
    ];
    let items = index_items(&all);
    for position in [
        TypePosition::ByValue,
        TypePosition::Return,
        TypePosition::Parameter,
    ] {
        assert_eq!(
            broken(verify_rust_type(
                &named_type(64, "outer"),
                position,
                &items,
                &mut Vec::new()
            )),
            "opaque record remains in a by-value Rust position"
        );
    }
    for position in [TypePosition::BehindPointer, TypePosition::AliasTarget] {
        assert!(
            verify_rust_type(&named_type(64, "outer"), position, &items, &mut Vec::new()).is_ok()
        );
    }
}

#[test]
fn functions_keep_their_rules() {
    let items = BTreeMap::new();
    assert_eq!(
        broken(verify_item(&function(vec![void()], void(), true), &items)),
        "post-lowering projection contains a variadic function"
    );
    assert_eq!(
        broken(verify_item(&function(vec![void()], void(), false), &items)),
        "post-lowering projection contains a void parameter"
    );
    assert_eq!(
        broken(verify_item(
            &function(vec![void()], array(scalar(), 0), false),
            &items
        )),
        "fixed array has zero elements"
    );
    assert!(verify_item(&function(vec![scalar(), pointer(void())], void(), false), &items).is_ok());
}

#[test]
fn variables_keep_their_rules() {
    let items = BTreeMap::new();
    let local = RustItem::Variable(RustVariable {
        declaration: 70,
        rust_name: "local".to_owned(),
        ty: void(),
        thread_local: true,
    });
    assert_eq!(
        broken(verify_item(&local, &items)),
        "post-lowering projection contains TLS"
    );
    assert_eq!(
        broken(verify_item(&variable(71, "nothing", void()), &items)),
        "void remains in a post-lowering value position"
    );
}

#[test]
fn enums_are_stored_as_integers() {
    let items = BTreeMap::new();
    let stored = |storage: RustScalar| {
        RustItem::Enum(RustEnum {
            declaration: 72,
            rust_name: "mode".to_owned(),
            storage,
        })
    };
    for storage in [
        RustScalar::Bool,
        RustScalar::F32,
        RustScalar::F64,
        RustScalar::CFloat {
            storage_bits: 32,
            alignment_bits: 32,
        },
        RustScalar::CDouble {
            storage_bits: 64,
            alignment_bits: 64,
        },
    ] {
        assert_eq!(
            broken(verify_item(&stored(storage), &items)),
            "enum storage is not an integer scalar"
        );
    }
    assert!(verify_item(
        &stored(RustScalar::Integer {
            signed: false,
            storage_bits: 8,
            alignment_bits: 8,
        }),
        &items
    )
    .is_ok());
}

#[test]
fn opaque_records_carry_no_layout() {
    let items = BTreeMap::new();
    assert!(verify_item(&RustItem::Record(opaque(OPAQUE, "opaque")), &items).is_ok());
    let mut sized = opaque(OPAQUE, "opaque");
    sized.size_bits = Some(8);
    let mut aligned = opaque(OPAQUE, "opaque");
    aligned.alignment_bits = Some(8);
    let mut packed = opaque(OPAQUE, "opaque");
    packed.packing_bits = Some(8);
    let mut filled = opaque(OPAQUE, "opaque");
    filled.fields.push(field("member", scalar(), 0));
    for record in [sized, aligned, packed, filled] {
        assert_eq!(
            broken(verify_item(&RustItem::Record(record), &items)),
            "opaque record carries concrete layout state"
        );
    }
}

#[test]
fn concrete_records_carry_a_byte_layout() {
    let items = BTreeMap::new();
    let layout = |size_bits: Option<u64>, alignment_bits: Option<u64>, packing_bits: Option<u64>| {
        let mut record = record(
            73,
            "record",
            RustRecordKind::Struct,
            vec![field("member", scalar(), 0)],
        );
        record.size_bits = size_bits;
        record.alignment_bits = alignment_bits;
        record.packing_bits = packing_bits;
        verify_item(&RustItem::Record(record), &items)
    };
    for (size_bits, alignment_bits) in [(None, None), (Some(32), None), (None, Some(32))] {
        assert_eq!(
            broken(layout(size_bits, alignment_bits, None)),
            "concrete record lacks measured layout"
        );
    }
    for (size_bits, alignment_bits) in [(0, 32), (33, 32), (32, 4), (32, 0), (32, 24), (32, 33)] {
        assert_eq!(
            broken(layout(Some(size_bits), Some(alignment_bits), None)),
            "concrete record carries an invalid byte layout"
        );
    }
    for packing_bits in [0, 4, 16, 24, 48] {
        assert_eq!(
            broken(layout(Some(32), Some(32), Some(packing_bits))),
            "concrete record carries an invalid packing cap"
        );
    }
    assert!(layout(Some(32), Some(32), Some(32)).is_ok());
    assert!(layout(Some(32), Some(32), Some(64)).is_ok());
    assert!(layout(Some(8), Some(1 << 63), None).is_ok());
}

#[test]
fn fields_keep_their_place() {
    let items = BTreeMap::new();
    let of = |kind: RustRecordKind, fields: Vec<RustField>| {
        verify_item(&RustItem::Record(record(74, "record", kind, fields)), &items)
    };
    assert_eq!(
        broken(of(RustRecordKind::Struct, vec![field("bit", scalar(), 3)])),
        "record field is not byte-addressable"
    );
    let mut odd = field("odd", scalar(), 0);
    odd.size_bits = 7;
    assert_eq!(
        broken(of(RustRecordKind::Struct, vec![odd])),
        "record field is not byte-addressable"
    );
    assert_eq!(
        broken(of(RustRecordKind::Union, vec![field("tail", flexible(), 0)])),
        "flexible array is not the final struct field"
    );
    assert!(of(RustRecordKind::Struct, vec![field("tail", flexible(), 0)]).is_ok());
    assert!(of(RustRecordKind::Struct, Vec::new()).is_ok());
    assert_eq!(
        broken(of(RustRecordKind::Struct, vec![field("nothing", void(), 0)])),
        "void remains in a post-lowering value position"
    );
}

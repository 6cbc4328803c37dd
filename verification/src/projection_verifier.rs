//! The pass over the items that lowering produced.
//!
//! It walks the projection itself and takes nothing on trust from the lowering
//! that produced it.
use std::collections::BTreeMap;
use vstd::prelude::*;

use crate::error::{projection_invariant, verdict_of, GenerationResult, Verdict};
use crate::position::TypePosition;
use crate::powers::is_power_of_two;
use crate::projection::{
    RustFunction, RustItem, RustRecord, RustRecordKind, RustScalar, RustType, RustTypeKind,
    ValidatedRustProjection,
};
use crate::projection_rules::{
    callback_parameters_verdict, function_parameters_verdict, item_map, item_verdict, items_verdict,
    lemma_callback_parameters_refused, lemma_function_parameters_refused, lemma_item_map,
    lemma_items_refused, lemma_record_fields_refused, projection_verdict, record_fields_verdict,
    record_layout_verdict, type_verdict, use_verdict,
};
use crate::source::DeclarationId;
use crate::stack::{lemma_unvisited_push, stack_contains, unvisited};

verus! {

/// Verifies a use of a type at `position`, and all that the type is made of,
/// against the items of a projection. `aliases` are the type aliases that lead
/// to the use.
pub fn verify_rust_type(
    ty: &RustType,
    position: TypePosition,
    items: &BTreeMap<DeclarationId, &RustItem>,
    aliases: &mut Vec<DeclarationId>,
) -> (result: GenerationResult<()>)
    ensures
        verdict_of(result) == type_verdict(*ty, position, items@, old(aliases)@),
        final(aliases)@ == old(aliases)@,
    decreases unvisited(items@.dom(), old(aliases)@), ty,
{
    if !ty.support.is_supported() {
        return projection_invariant("post-lowering type retains rejected/partial support");
    }
    match &ty.kind {
        RustTypeKind::Void => {
            if !position.admits_void() {
                return projection_invariant("void remains in a post-lowering value position");
            }
            Ok(())
        },
        RustTypeKind::Scalar(_) => Ok(()),
        RustTypeKind::Pointer(pointee) => verify_rust_type(
            pointee,
            TypePosition::BehindPointer,
            items,
            aliases,
        ),
        RustTypeKind::FixedArray { element, elements } => {
            if *elements == 0 {
                return projection_invariant("fixed array has zero elements");
            }
            verify_rust_type(element, TypePosition::ByValue, items, aliases)
        },
        RustTypeKind::FlexibleArray { element } => verify_rust_type(
            element,
            TypePosition::ByValue,
            items,
            aliases,
        ),
        RustTypeKind::Named { declaration, rust_name } => {
            let item: &RustItem = match items.get(declaration) {
                Some(item) => *item,
                None => {
                    return projection_invariant("post-lowering named type has no declaration");
                },
            };
            if *item.rust_name() != *rust_name {
                return projection_invariant(
                    "post-lowering named type carries a stale Rust identifier",
                );
            }
            match item {
                RustItem::Record(record) => {
                    if matches!(record.kind, RustRecordKind::Opaque) && !position.names_only() {
                        return projection_invariant(
                            "opaque record remains in a by-value Rust position",
                        );
                    }
                    Ok(())
                },
                RustItem::TypeAlias(alias) => {
                    if stack_contains(aliases, *declaration) {
                        return projection_invariant("post-lowering type-alias cycle detected");
                    }
                    proof {
                        lemma_unvisited_push(items@.dom(), aliases@, *declaration);
                    }
                    aliases.push(*declaration);
                    let result = verify_rust_type(&alias.target, position, items, aliases);
                    aliases.pop();
                    assert(aliases@ =~= old(aliases)@);
                    result
                },
                RustItem::Enum(_) => Ok(()),
                RustItem::Function(_) | RustItem::Variable(_) => projection_invariant(
                    "named type references a value declaration",
                ),
            }
        },
        RustTypeKind::FunctionPointer { parameters, return_type, variadic } => {
            if *variadic {
                return projection_invariant("post-lowering callback is variadic");
            }
            for index in 0..parameters.len()
                invariant
                    aliases@ == old(aliases)@,
                    *parameters == ty.kind->parameters,
                    ty.kind is FunctionPointer,
                    use_verdict(*ty, position, items@, old(aliases)@) is Ok,
                    callback_parameters_verdict(
                        parameters@,
                        index as nat,
                        items@,
                        old(aliases)@,
                    ) is Ok,
            {
                let result = verify_rust_type(
                    &parameters[index],
                    TypePosition::ByValue,
                    items,
                    aliases,
                );
                if result.is_err() {
                    proof {
                        lemma_callback_parameters_refused(
                            parameters@,
                            (index + 1) as nat,
                            parameters@.len(),
                            items@,
                            aliases@,
                        );
                    }
                    return result;
                }
            }
            verify_rust_type(return_type, TypePosition::Return, items, aliases)
        },
    }
}

/// Verifies a lowered function.
fn verify_function(
    function: &RustFunction,
    items: &BTreeMap<DeclarationId, &RustItem>,
) -> (result: GenerationResult<()>)
    ensures
        verdict_of(result) == item_verdict(RustItem::Function(*function), items@),
{
    if function.variadic {
        return projection_invariant("post-lowering projection contains a variadic function");
    }
    let mut aliases: Vec<DeclarationId> = Vec::new();
    let result = verify_rust_type(
        &function.return_type,
        TypePosition::Return,
        items,
        &mut aliases,
    );
    if result.is_err() {
        return result;
    }
    let parameters = &function.parameters;
    for index in 0..parameters.len()
        invariant
            aliases@ == Seq::<DeclarationId>::empty(),
            function_parameters_verdict(parameters@, index as nat, items@) == Verdict::Ok(()),
            function_parameters_verdict(parameters@, parameters@.len(), items@) == item_verdict(
                RustItem::Function(*function),
                items@,
            ),
    {
        let parameter = &parameters[index];
        let result = if matches!(parameter.ty.kind, RustTypeKind::Void) {
            projection_invariant("post-lowering projection contains a void parameter")
        } else {
            verify_rust_type(&parameter.ty, TypePosition::ByValue, items, &mut aliases)
        };
        if result.is_err() {
            proof {
                lemma_function_parameters_refused(
                    parameters@,
                    (index + 1) as nat,
                    parameters@.len(),
                    items@,
                );
            }
            return result;
        }
    }
    Ok(())
}

/// Verifies a record's own layout.
fn verify_record_layout(record: &RustRecord) -> (result: GenerationResult<()>)
    ensures
        verdict_of(result) == record_layout_verdict(*record),
{
    match record.kind {
        RustRecordKind::Opaque => {
            if record.fields.len() != 0 || record.size_bits.is_some()
                || record.alignment_bits.is_some() || record.packing_bits.is_some() {
                return projection_invariant("opaque record carries concrete layout state");
            }
        },
        RustRecordKind::Struct | RustRecordKind::Union => {
            let (size_bits, alignment_bits) = match (record.size_bits, record.alignment_bits) {
                (Some(size_bits), Some(alignment_bits)) => (size_bits, alignment_bits),
                _ => {
                    return projection_invariant("concrete record lacks measured layout");
                },
            };
            if size_bits == 0 || size_bits % 8 != 0 || alignment_bits < 8 || !is_power_of_two(
                alignment_bits,
            ) {
                return projection_invariant("concrete record carries an invalid byte layout");
            }
            if let Some(packing) = record.packing_bits {
                if packing < 8 || !is_power_of_two(packing) || packing % 8 != 0 || alignment_bits
                    > packing {
                    return projection_invariant("concrete record carries an invalid packing cap");
                }
            }
        },
    }
    Ok(())
}

/// Verifies a lowered record.
fn verify_lowered_record(
    record: &RustRecord,
    items: &BTreeMap<DeclarationId, &RustItem>,
) -> (result: GenerationResult<()>)
    ensures
        verdict_of(result) == item_verdict(RustItem::Record(*record), items@),
{
    let layout = verify_record_layout(record);
    if layout.is_err() {
        return layout;
    }
    let mut aliases: Vec<DeclarationId> = Vec::new();
    for index in 0..record.fields.len()
        invariant
            aliases@ == Seq::<DeclarationId>::empty(),
            record_fields_verdict(*record, index as nat, items@) == Verdict::Ok(()),
            record_fields_verdict(*record, record.fields@.len(), items@) == item_verdict(
                RustItem::Record(*record),
                items@,
            ),
    {
        let field = &record.fields[index];
        let result = if field.offset_bits % 8 != 0 || field.size_bits % 8 != 0 {
            projection_invariant("record field is not byte-addressable")
        } else if matches!(record.kind, RustRecordKind::Union) && field.offset_bits != 0 {
            projection_invariant("union field has a nonzero measured offset")
        } else if matches!(field.ty.kind, RustTypeKind::FlexibleArray { .. }) && (!matches!(
            record.kind,
            RustRecordKind::Struct
        ) || index + 1 != record.fields.len()) {
            projection_invariant("flexible array is not the final struct field")
        } else {
            verify_rust_type(&field.ty, TypePosition::ByValue, items, &mut aliases)
        };
        if result.is_err() {
            proof {
                lemma_record_fields_refused(
                    *record,
                    (index + 1) as nat,
                    record.fields@.len(),
                    items@,
                );
            }
            return result;
        }
    }
    Ok(())
}

/// Verifies one item of a projection.
pub fn verify_item(
    item: &RustItem,
    items: &BTreeMap<DeclarationId, &RustItem>,
) -> (result: GenerationResult<()>)
    ensures
        verdict_of(result) == item_verdict(*item, items@),
{
    let mut aliases: Vec<DeclarationId> = Vec::new();
    match item {
        RustItem::Function(function) => verify_function(function, items),
        RustItem::Record(record) => verify_lowered_record(record, items),
        RustItem::Enum(enumeration) => {
            if matches!(
                enumeration.storage,
                RustScalar::Bool | RustScalar::CFloat { .. } | RustScalar::CDouble { .. }
                    | RustScalar::F32 | RustScalar::F64
            ) {
                return projection_invariant("enum storage is not an integer scalar");
            }
            Ok(())
        },
        RustItem::TypeAlias(alias) => {
            aliases.push(alias.declaration);
            assert(aliases@ =~= seq![alias.declaration]);
            verify_rust_type(&alias.target, TypePosition::AliasTarget, items, &mut aliases)
        },
        RustItem::Variable(variable) => {
            if variable.thread_local {
                return projection_invariant("post-lowering projection contains TLS");
            }
            verify_rust_type(&variable.ty, TypePosition::ByValue, items, &mut aliases)
        },
    }
}

/// The items of a projection by declaration; of two items with one declaration
/// the later counts.
pub fn index_items<'a>(items: &'a Vec<RustItem>) -> (result: BTreeMap<DeclarationId, &'a RustItem>)
    ensures
        result@ == item_map(items@, items@.len()),
{
    let mut indexed: BTreeMap<DeclarationId, &'a RustItem> = BTreeMap::new();
    for index in 0..items.len()
        invariant
            indexed@ == item_map(items@, index as nat),
    {
        let item = &items[index];
        indexed.insert(item.declaration(), item);
    }
    indexed
}

/// Verifies a projection, item by item.
pub fn verify_projection(projection: &ValidatedRustProjection) -> (result: GenerationResult<()>)
    ensures
        verdict_of(result) == projection_verdict(*projection),
{
    let items = index_items(&projection.items);
    proof {
        lemma_item_map(projection.items@, projection.items@.len());
    }
    if items.len() != projection.items.len() {
        return projection_invariant("post-lowering projection repeats a declaration");
    }
    for index in 0..projection.items.len()
        invariant
            items@ == item_map(projection.items@, projection.items@.len()),
            items_verdict(projection.items@, index as nat) == Verdict::Ok(()),
            items_verdict(projection.items@, projection.items@.len()) == projection_verdict(
                *projection,
            ),
    {
        let result = verify_item(&projection.items[index], &items);
        if result.is_err() {
            proof {
                lemma_items_refused(
                    projection.items@,
                    (index + 1) as nat,
                    projection.items@.len(),
                );
            }
            return result;
        }
    }
    Ok(())
}

} // verus!

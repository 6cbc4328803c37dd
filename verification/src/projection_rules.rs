//! What a projection owes, and how a broken rule is reported.
use vstd::prelude::*;

use crate::error::{projection_refusal, Verdict};
use crate::position::{admits_void, names_only, TypePosition};
use crate::powers::power_of_two;
use crate::projection::{
    RustItem, RustParameter, RustRecord, RustScalar, RustType, RustTypeKind,
    ValidatedRustProjection,
};
use crate::source::DeclarationId;
use crate::stack::{lemma_unvisited_push, unvisited};

verus! {

/// The items of a projection, by declaration.
pub type ItemMap<'a> = Map<DeclarationId, &'a RustItem>;

/// Whether `ty` names a type alias of the projection.
pub open spec fn names_alias(ty: RustType, items: ItemMap) -> bool {
    match ty.kind {
        RustTypeKind::Named { declaration, .. } => items.contains_key(declaration)
            && *items[declaration] is TypeAlias,
        _ => false,
    }
}

/// The verdict on a use of the item `declaration` under the name `rust_name`.
pub open spec fn named_use_verdict(
    declaration: DeclarationId,
    rust_name: Seq<char>,
    position: TypePosition,
    items: ItemMap,
    aliases: Seq<DeclarationId>,
) -> Verdict {
    if !items.contains_key(declaration) {
        projection_refusal("post-lowering named type has no declaration"@)
    } else if items[declaration].name() != rust_name {
        projection_refusal("post-lowering named type carries a stale Rust identifier"@)
    } else {
        match *items[declaration] {
            RustItem::Record(record) => if record.kind is Opaque && !names_only(position) {
                projection_refusal("opaque record remains in a by-value Rust position"@)
            } else {
                Ok(())
            },
            RustItem::TypeAlias(_) => if aliases.contains(declaration) {
                projection_refusal("post-lowering type-alias cycle detected"@)
            } else {
                Ok(())
            },
            RustItem::Enum(_) => Ok(()),
            RustItem::Function(_) | RustItem::Variable(_) => projection_refusal(
                "named type references a value declaration"@,
            ),
        }
    }
}

/// The verdict on one use of a type, whatever its parts are. `aliases` are the
/// type aliases that lead to the use.
pub open spec fn use_verdict(
    ty: RustType,
    position: TypePosition,
    items: ItemMap,
    aliases: Seq<DeclarationId>,
) -> Verdict {
    if !(ty.support is Supported) {
        projection_refusal("post-lowering type retains rejected/partial support"@)
    } else {
        match ty.kind {
            RustTypeKind::Void => if admits_void(position) {
                Ok(())
            } else {
                projection_refusal("void remains in a post-lowering value position"@)
            },
            RustTypeKind::FixedArray { elements, .. } => if elements == 0 {
                projection_refusal("fixed array has zero elements"@)
            } else {
                Ok(())
            },
            RustTypeKind::Named { declaration, rust_name } => named_use_verdict(
                declaration,
                rust_name@,
                position,
                items,
                aliases,
            ),
            RustTypeKind::FunctionPointer { variadic, .. } => if variadic {
                projection_refusal("post-lowering callback is variadic"@)
            } else {
                Ok(())
            },
            RustTypeKind::Scalar(_) | RustTypeKind::Pointer(_) | RustTypeKind::FlexibleArray {
                ..
            } => Ok(()),
        }
    }
}

/// The verdict on a use of a type and on all that it is made of: the use
/// itself comes first, then its parts from left to right, a callback's
/// parameters before its return type. A type alias is looked through, at the
/// position at which it is used.
pub open spec fn type_verdict(
    ty: RustType,
    position: TypePosition,
    items: ItemMap,
    aliases: Seq<DeclarationId>,
) -> Verdict
    decreases unvisited(items.dom(), aliases), ty, 0nat,
    when items.dom().finite()
{
    if use_verdict(ty, position, items, aliases) is Err {
        use_verdict(ty, position, items, aliases)
    } else {
        match ty.kind {
            RustTypeKind::Pointer(pointee) => type_verdict(
                *pointee,
                TypePosition::BehindPointer,
                items,
                aliases,
            ),
            RustTypeKind::FixedArray { element, .. } => type_verdict(
                *element,
                TypePosition::ByValue,
                items,
                aliases,
            ),
            RustTypeKind::FlexibleArray { element } => type_verdict(
                *element,
                TypePosition::ByValue,
                items,
                aliases,
            ),
            RustTypeKind::Named { declaration, .. } => match *items[declaration] {
                RustItem::TypeAlias(alias) => {
                    proof {
                        lemma_unvisited_push(items.dom(), aliases, declaration);
                    }
                    type_verdict(alias.target, position, items, aliases.push(declaration))
                },
                _ => Ok(()),
            },
            RustTypeKind::FunctionPointer { parameters, return_type, .. } => {
                let leading = callback_parameters_verdict(
                    parameters@,
                    parameters@.len(),
                    items,
                    aliases,
                );
                if leading is Err {
                    leading
                } else {
                    type_verdict(*return_type, TypePosition::Return, items, aliases)
                }
            },
            RustTypeKind::Void | RustTypeKind::Scalar(_) => Ok(()),
        }
    }
}

/// The verdict on the first `count` parameters of a callback.
pub open spec fn callback_parameters_verdict(
    parameters: Seq<RustType>,
    count: nat,
    items: ItemMap,
    aliases: Seq<DeclarationId>,
) -> Verdict
    decreases unvisited(items.dom(), aliases), parameters, count,
    when items.dom().finite() && count <= parameters.len()
{
    if count == 0 {
        Ok(())
    } else {
        let leading = callback_parameters_verdict(parameters, (count - 1) as nat, items, aliases);
        if leading is Err {
            leading
        } else {
            type_verdict(parameters[count - 1], TypePosition::ByValue, items, aliases)
        }
    }
}

/// A refused parameter decides the verdict on all of them.
pub proof fn lemma_callback_parameters_refused(
    parameters: Seq<RustType>,
    count: nat,
    total: nat,
    items: ItemMap,
    aliases: Seq<DeclarationId>,
)
    requires
        items.dom().finite(),
        count <= total <= parameters.len(),
        callback_parameters_verdict(parameters, count, items, aliases) is Err,
    ensures
        callback_parameters_verdict(parameters, total, items, aliases)
            == callback_parameters_verdict(parameters, count, items, aliases),
    decreases total,
{
    if count < total {
        lemma_callback_parameters_refused(
            parameters,
            count,
            (total - 1) as nat,
            items,
            aliases,
        );
    }
}

/// The verdict on the first `count` parameters of a function.
pub open spec fn function_parameters_verdict(
    parameters: Seq<RustParameter>,
    count: nat,
    items: ItemMap,
) -> Verdict
    decreases count,
{
    if count == 0 {
        Ok(())
    } else {
        let leading = function_parameters_verdict(parameters, (count - 1) as nat, items);
        if leading is Err {
            leading
        } else if parameters[count - 1].ty.kind is Void {
            projection_refusal("post-lowering projection contains a void parameter"@)
        } else {
            type_verdict(parameters[count - 1].ty, TypePosition::ByValue, items, Seq::empty())
        }
    }
}

/// A refused parameter decides the verdict on all of them.
pub proof fn lemma_function_parameters_refused(
    parameters: Seq<RustParameter>,
    count: nat,
    total: nat,
    items: ItemMap,
)
    requires
        count <= total,
        function_parameters_verdict(parameters, count, items) is Err,
    ensures
        function_parameters_verdict(parameters, total, items) == function_parameters_verdict(
            parameters,
            count,
            items,
        ),
    decreases total,
{
    if count < total {
        lemma_function_parameters_refused(parameters, count, (total - 1) as nat, items);
    }
}

/// Whether a concrete record's size and alignment are those of whole bytes.
pub open spec fn byte_layout(size_bits: u64, alignment_bits: u64) -> bool {
    &&& size_bits != 0
    &&& size_bits % 8 == 0
    &&& alignment_bits >= 8
    &&& power_of_two(alignment_bits as nat)
}

/// Whether `packing` caps the alignment of a record.
pub open spec fn packing_cap(packing: u64, alignment_bits: u64) -> bool {
    &&& packing >= 8
    &&& power_of_two(packing as nat)
    &&& packing % 8 == 0
    &&& alignment_bits <= packing
}

/// The verdict on a field's measured place in its record.
pub open spec fn field_place_verdict(record: RustRecord, index: int) -> Verdict {
    let field = record.fields@[index];
    if field.offset_bits % 8 != 0 || field.size_bits % 8 != 0 {
        projection_refusal("record field is not byte-addressable"@)
    } else if record.kind is Union && field.offset_bits != 0 {
        projection_refusal("union field has a nonzero measured offset"@)
    } else if field.ty.kind is FlexibleArray && (!(record.kind is Struct) || index + 1
        != record.fields@.len()) {
        projection_refusal("flexible array is not the final struct field"@)
    } else {
        Ok(())
    }
}

/// The verdict on the first `count` fields of a concrete record.
pub open spec fn record_fields_verdict(record: RustRecord, count: nat, items: ItemMap) -> Verdict
    decreases count,
{
    if count == 0 {
        Ok(())
    } else {
        let leading = record_fields_verdict(record, (count - 1) as nat, items);
        if leading is Err {
            leading
        } else if field_place_verdict(record, count - 1) is Err {
            field_place_verdict(record, count - 1)
        } else {
            type_verdict(
                record.fields@[count - 1].ty,
                TypePosition::ByValue,
                items,
                Seq::empty(),
            )
        }
    }
}

/// A refused field decides the verdict on all of them.
pub proof fn lemma_record_fields_refused(
    record: RustRecord,
    count: nat,
    total: nat,
    items: ItemMap,
)
    requires
        count <= total,
        record_fields_verdict(record, count, items) is Err,
    ensures
        record_fields_verdict(record, total, items) == record_fields_verdict(record, count, items),
    decreases total,
{
    if count < total {
        lemma_record_fields_refused(record, count, (total - 1) as nat, items);
    }
}

/// Whether a record carries a part of a concrete layout.
pub open spec fn has_layout_state(record: RustRecord) -> bool {
    ||| record.fields@.len() > 0
    ||| record.size_bits is Some
    ||| record.alignment_bits is Some
    ||| record.packing_bits is Some
}

/// The verdict on a record's own layout.
pub open spec fn record_layout_verdict(record: RustRecord) -> Verdict {
    if record.kind is Opaque {
        if has_layout_state(record) {
            projection_refusal("opaque record carries concrete layout state"@)
        } else {
            Ok(())
        }
    } else {
        match (record.size_bits, record.alignment_bits) {
            (Some(size_bits), Some(alignment_bits)) => if !byte_layout(size_bits, alignment_bits) {
                projection_refusal("concrete record carries an invalid byte layout"@)
            } else if record.packing_bits matches Some(packing) && !packing_cap(
                packing,
                alignment_bits,
            ) {
                projection_refusal("concrete record carries an invalid packing cap"@)
            } else {
                Ok(())
            },
            _ => projection_refusal("concrete record lacks measured layout"@),
        }
    }
}

/// Whether a scalar is an integer.
pub open spec fn integer_scalar(scalar: RustScalar) -> bool {
    scalar is CInt || scalar is Integer
}

/// The verdict on one item of a projection.
pub open spec fn item_verdict(item: RustItem, items: ItemMap) -> Verdict {
    match item {
        RustItem::Function(function) => if function.variadic {
            projection_refusal("post-lowering projection contains a variadic function"@)
        } else {
            let returned = type_verdict(
                function.return_type,
                TypePosition::Return,
                items,
                Seq::empty(),
            );
            if returned is Err {
                returned
            } else {
                function_parameters_verdict(
                    function.parameters@,
                    function.parameters@.len(),
                    items,
                )
            }
        },
        RustItem::Record(record) => if record_layout_verdict(record) is Err {
            record_layout_verdict(record)
        } else {
            record_fields_verdict(record, record.fields@.len(), items)
        },
        RustItem::Enum(enumeration) => if integer_scalar(enumeration.storage) {
            Ok(())
        } else {
            projection_refusal("enum storage is not an integer scalar"@)
        },
        RustItem::TypeAlias(alias) => type_verdict(
            alias.target,
            TypePosition::AliasTarget,
            items,
            seq![alias.declaration],
        ),
        RustItem::Variable(variable) => if variable.thread_local {
            projection_refusal("post-lowering projection contains TLS"@)
        } else {
            type_verdict(variable.ty, TypePosition::ByValue, items, Seq::empty())
        },
    }
}

/// The first `count` items of a projection by declaration; of two items with
/// one declaration the later counts.
pub open spec fn item_map<'a>(items: Seq<RustItem>, count: nat) -> ItemMap<'a>
    decreases count,
{
    if count == 0 {
        Map::empty()
    } else {
        item_map(items, (count - 1) as nat).insert(items[count - 1].id(), &items[count - 1])
    }
}

/// Whether no two of the first `count` items have one declaration.
pub open spec fn distinct_items(items: Seq<RustItem>, count: nat) -> bool {
    forall|i: int, j: int|
        0 <= i < j < count ==> (#[trigger] items[i]).id() != (#[trigger] items[j]).id()
}

/// The map of items is finite, has the declarations of the items for keys, and
/// has as many entries as there are items exactly if no declaration repeats;
/// each item is then found under its declaration.
pub proof fn lemma_item_map(items: Seq<RustItem>, count: nat)
    requires
        count <= items.len(),
    ensures
        item_map(items, count).dom().finite(),
        forall|id: DeclarationId| #[trigger]
            item_map(items, count).contains_key(id) <==> exists|i: int|
                0 <= i < count && (#[trigger] items[i]).id() == id,
        forall|id: DeclarationId| #[trigger]
            item_map(items, count).contains_key(id) ==> item_map(items, count)[id].id() == id,
        item_map(items, count).dom().len() <= count,
        item_map(items, count).dom().len() == count <==> distinct_items(items, count),
        distinct_items(items, count) ==> forall|i: int|
            0 <= i < count ==> *item_map(items, count)[(#[trigger] items[i]).id()] == items[i],
    decreases count,
{
    if count > 0 {
        let shorter = (count - 1) as nat;
        lemma_item_map(items, shorter);
        let last = items[count - 1];
        let before = item_map(items, shorter);
        let after = item_map(items, count);
        assert(after.dom() =~= before.dom().insert(last.id()));
        assert forall|id: DeclarationId| #[trigger] after.contains_key(id) implies exists|i: int|
            0 <= i < count && (#[trigger] items[i]).id() == id by {
            if id == last.id() {
                assert(items[count - 1].id() == id);
            } else {
                assert(before.contains_key(id));
            }
        }
        assert(distinct_items(items, count) ==> distinct_items(items, shorter));
        if before.contains_key(last.id()) {
            let i = choose|i: int| 0 <= i < shorter && (#[trigger] items[i]).id() == last.id();
            assert(!distinct_items(items, count));
        }
    }
}

/// The verdict on the first `count` items of a projection.
pub open spec fn items_verdict(items: Seq<RustItem>, count: nat) -> Verdict
    decreases count,
{
    if count == 0 {
        Ok(())
    } else {
        let leading = items_verdict(items, (count - 1) as nat);
        if leading is Err {
            leading
        } else {
            item_verdict(items[count - 1], item_map(items, items.len()))
        }
    }
}

/// A refused item decides the verdict on all of them.
pub proof fn lemma_items_refused(items: Seq<RustItem>, count: nat, total: nat)
    requires
        count <= total,
        items_verdict(items, count) is Err,
    ensures
        items_verdict(items, total) == items_verdict(items, count),
    decreases total,
{
    if count < total {
        lemma_items_refused(items, count, (total - 1) as nat);
    }
}

/// The verdict on a projection.
pub open spec fn projection_verdict(projection: ValidatedRustProjection) -> Verdict {
    if !distinct_items(projection.items@, projection.items@.len()) {
        projection_refusal("post-lowering projection repeats a declaration"@)
    } else {
        items_verdict(projection.items@, projection.items@.len())
    }
}

} // verus!

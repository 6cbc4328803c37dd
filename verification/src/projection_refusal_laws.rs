//! How the pass over lowered items answers: which refusal each broken rule
//! gives, and how the answer for a whole follows from the answers for its
//! parts.
use vstd::arithmetic::power2::pow2;
use vstd::prelude::*;

use crate::error::{projection_refusal, Refusal, Verdict};
use crate::position::TypePosition;
use crate::powers::power_of_two;
use crate::projection::{
    RustFunction, RustItem, RustRecord, RustType, RustTypeKind, ValidatedRustProjection,
};
use crate::projection_laws::{
    held_declaration, held_name, keeps_its_place, lemma_callback_parameters,
    lemma_function_parameters, lemma_items, lemma_record_fields, lemma_whole_bytes,
};
use crate::projection_rules::{
    callback_parameters_verdict, function_parameters_verdict, item_map, item_verdict, items_verdict,
    lemma_callback_parameters_refused, lemma_function_parameters_refused, lemma_items_refused,
    lemma_record_fields_refused, projection_verdict, record_fields_verdict, record_layout_verdict,
    type_verdict, ItemMap,
};
use crate::source::DeclarationId;

verus! {

/// The answer that a projection breaks the rule `reason`.
pub open spec fn broken(reason: Seq<char>) -> Verdict {
    Verdict::Err(Refusal::ProjectionInvariant { reason })
}

/// The refusal of a projection carries the reason that it is given, and nothing
/// else.
pub proof fn law_projection_refusals(reason: Seq<char>)
    ensures
        projection_refusal(reason) == broken(reason),
{
}

/// A type that is not understood is refused, whatever its shape is.
pub proof fn law_unsupported_types(
    ty: RustType,
    position: TypePosition,
    items: ItemMap,
    aliases: Seq<DeclarationId>,
)
    requires
        items.dom().finite(),
        ty.support is Partial || ty.support is Rejected,
    ensures
        type_verdict(ty, position, items, aliases) == broken(
            "post-lowering type retains rejected/partial support"@,
        ),
{
}

/// A scalar, whichever it is, is accepted at every position; `void` where it is
/// returned or pointed to, and is refused elsewhere.
pub proof fn law_scalars_and_void(
    ty: RustType,
    position: TypePosition,
    items: ItemMap,
    aliases: Seq<DeclarationId>,
)
    requires
        items.dom().finite(),
        ty.support is Supported,
    ensures
        ty.kind is Scalar ==> type_verdict(ty, position, items, aliases) == Verdict::Ok(()),
        ty.kind is Void && (position is Return || position is BehindPointer) ==> type_verdict(
            ty,
            position,
            items,
            aliases,
        ) == Verdict::Ok(()),
        ty.kind is Void && (position is ByValue || position is Parameter || position is AliasTarget)
            ==> type_verdict(ty, position, items, aliases) == broken(
            "void remains in a post-lowering value position"@,
        ),
{
}

/// A pointer is answered as what it points to. An array is answered as its
/// elements, by value, unless it has a number of elements and that is zero.
pub proof fn law_pointers_and_arrays(
    ty: RustType,
    position: TypePosition,
    items: ItemMap,
    aliases: Seq<DeclarationId>,
)
    requires
        items.dom().finite(),
        ty.support is Supported,
    ensures
        ({
            let verdict = type_verdict(ty, position, items, aliases);
            match ty.kind {
                RustTypeKind::Pointer(pointee) => verdict == type_verdict(
                    *pointee,
                    TypePosition::BehindPointer,
                    items,
                    aliases,
                ),
                RustTypeKind::FixedArray { element, elements } => {
                    &&& elements == 0 ==> verdict == broken("fixed array has zero elements"@)
                    &&& elements > 0 ==> verdict == type_verdict(
                        *element,
                        TypePosition::ByValue,
                        items,
                        aliases,
                    )
                },
                RustTypeKind::FlexibleArray { element } => verdict == type_verdict(
                    *element,
                    TypePosition::ByValue,
                    items,
                    aliases,
                ),
                _ => true,
            }
        }),
{
}

/// A name is refused if it is missing, then if it is not the name of what it
/// refers to. A record is then accepted unless it is opaque and held by value,
/// an enum always, and a function or a variable never. A type alias is refused
/// if it leads to its own use, and is else answered as its target, at the same
/// position.
pub proof fn law_names(
    ty: RustType,
    position: TypePosition,
    items: ItemMap,
    aliases: Seq<DeclarationId>,
    declaration: DeclarationId,
    rust_name: Seq<char>,
)
    requires
        items.dom().finite(),
        ty.support is Supported,
        ty.kind is Named,
        ty.kind->Named_declaration == declaration,
        ty.kind->Named_rust_name@ == rust_name,
    ensures
        ({
            let verdict = type_verdict(ty, position, items, aliases);
            let named = position is BehindPointer || position is AliasTarget;
            &&& !items.contains_key(declaration) ==> verdict == broken(
                "post-lowering named type has no declaration"@,
            )
            &&& items.contains_key(declaration) && held_name(*items[declaration]) != rust_name
                ==> verdict == broken("post-lowering named type carries a stale Rust identifier"@)
            &&& items.contains_key(declaration) && held_name(*items[declaration]) == rust_name
                ==> match *items[declaration] {
                RustItem::Record(record) => {
                    &&& record.kind is Opaque && !named ==> verdict == broken(
                        "opaque record remains in a by-value Rust position"@,
                    )
                    &&& !(record.kind is Opaque) || named ==> verdict == Verdict::Ok(())
                },
                RustItem::Enum(_) => verdict == Verdict::Ok(()),
                RustItem::Function(_) | RustItem::Variable(_) => verdict == broken(
                    "named type references a value declaration"@,
                ),
                RustItem::TypeAlias(alias) => {
                    &&& aliases.contains(declaration) ==> verdict == broken(
                        "post-lowering type-alias cycle detected"@,
                    )
                    &&& !aliases.contains(declaration) ==> verdict == type_verdict(
                        alias.target,
                        position,
                        items,
                        aliases.push(declaration),
                    )
                },
            }
        }),
{
}

/// A callback is refused if it is variadic. It is else answered as the first of
/// its parameters, by value, that is refused, and as its return type if none
/// is.
pub proof fn law_callbacks(
    ty: RustType,
    position: TypePosition,
    items: ItemMap,
    aliases: Seq<DeclarationId>,
    index: int,
)
    requires
        items.dom().finite(),
        ty.support is Supported,
        ty.kind is FunctionPointer,
    ensures
        ({
            let verdict = type_verdict(ty, position, items, aliases);
            let parameters = ty.kind->parameters@;
            let parameter = |i: int|
                type_verdict(parameters[i], TypePosition::ByValue, items, aliases);
            &&& ty.kind->variadic ==> verdict == broken("post-lowering callback is variadic"@)
            &&& !ty.kind->variadic && 0 <= index < parameters.len() && parameter(index) is Err && (
            forall|i: int| 0 <= i < index ==> #[trigger] parameter(i) is Ok) ==> verdict
                == parameter(index)
            &&& !ty.kind->variadic && (forall|i: int|
                0 <= i < parameters.len() ==> #[trigger] parameter(i) is Ok) ==> verdict
                == type_verdict(*ty.kind->return_type, TypePosition::Return, items, aliases)
        }),
{
    let parameters = ty.kind->parameters@;
    let parameter = |i: int| type_verdict(parameters[i], TypePosition::ByValue, items, aliases);
    if forall|i: int| 0 <= i < parameters.len() ==> #[trigger] parameter(i) is Ok {
        assert forall|i: int| 0 <= i < parameters.len() implies type_verdict(
            #[trigger] parameters[i],
            TypePosition::ByValue,
            items,
            aliases,
        ) is Ok by {
            assert(parameter(i) is Ok);
        }
        lemma_callback_parameters(parameters, parameters.len(), items, aliases);
    }
    if 0 <= index < parameters.len() && parameter(index) is Err && forall|i: int|
        0 <= i < index ==> #[trigger] parameter(i) is Ok {
        assert forall|i: int| 0 <= i < index implies type_verdict(
            #[trigger] parameters[i],
            TypePosition::ByValue,
            items,
            aliases,
        ) is Ok by {
            assert(parameter(i) is Ok);
        }
        lemma_callback_parameters(parameters, index as nat, items, aliases);
        let next = (index + 1) as nat;
        assert(callback_parameters_verdict(parameters, next, items, aliases) == parameter(index));
        lemma_callback_parameters_refused(parameters, next, parameters.len(), items, aliases);
    }
}

/// A lowered function is refused if it is variadic. It is else answered as its
/// return type if that is refused, and as the first of its parameters that is:
/// `void` for its own sake, any other as its type, by value.
pub proof fn law_lowered_functions(function: RustFunction, items: ItemMap, index: int)
    ensures
        ({
            let verdict = item_verdict(RustItem::Function(function), items);
            let parameters = function.parameters@;
            let returned = type_verdict(
                function.return_type,
                TypePosition::Return,
                items,
                seq![],
            );
            let parameter = |i: int|
                type_verdict(parameters[i].ty, TypePosition::ByValue, items, seq![]);
            let first = 0 <= index < parameters.len() && forall|i: int|
                0 <= i < index ==> !(parameters[i].ty.kind is Void) && #[trigger] parameter(i)
                    is Ok;
            &&& function.variadic ==> verdict == broken(
                "post-lowering projection contains a variadic function"@,
            )
            &&& !function.variadic && returned is Err ==> verdict == returned
            &&& !function.variadic && returned is Ok && first && parameters[index].ty.kind is Void
                ==> verdict == broken("post-lowering projection contains a void parameter"@)
            &&& !function.variadic && returned is Ok && first && !(parameters[index].ty.kind
                is Void) && parameter(index) is Err ==> verdict == parameter(index)
            &&& !function.variadic && returned is Ok && (forall|i: int|
                0 <= i < parameters.len() ==> !(parameters[i].ty.kind is Void)
                    && #[trigger] parameter(i) is Ok) ==> verdict is Ok
        }),
{
    let parameters = function.parameters@;
    let parameter = |i: int| type_verdict(parameters[i].ty, TypePosition::ByValue, items, seq![]);
    assert(seq![] =~= Seq::<DeclarationId>::empty());
    if forall|i: int|
        0 <= i < parameters.len() ==> !(parameters[i].ty.kind is Void) && #[trigger] parameter(i)
            is Ok {
        assert forall|i: int| 0 <= i < parameters.len() implies !((
        #[trigger] parameters[i]).ty.kind is Void) && type_verdict(
            parameters[i].ty,
            TypePosition::ByValue,
            items,
            Seq::empty(),
        ) is Ok by {
            assert(parameter(i) is Ok);
        }
        lemma_function_parameters(parameters, parameters.len(), items);
    }
    if 0 <= index < parameters.len() && forall|i: int|
        0 <= i < index ==> !(parameters[i].ty.kind is Void) && #[trigger] parameter(i) is Ok {
        assert forall|i: int| 0 <= i < index implies !((#[trigger] parameters[i]).ty.kind is Void)
            && type_verdict(parameters[i].ty, TypePosition::ByValue, items, Seq::empty()) is Ok by {
            assert(parameter(i) is Ok);
        }
        lemma_function_parameters(parameters, index as nat, items);
        let next = (index + 1) as nat;
        if function_parameters_verdict(parameters, next, items) is Err {
            lemma_function_parameters_refused(parameters, next, parameters.len(), items);
        }
    }
}

/// Whether a number of bits is at least a byte and a power of two.
pub open spec fn aligns(bits: u64) -> bool {
    bits >= 8 && exists|exponent: nat| #[trigger] pow2(exponent) == bits
}

/// An opaque record is accepted exactly if it has no field and no layout. Any
/// other record is refused if its size or its alignment is missing, then if
/// they are not those of whole bytes, then if it is packed to less than its
/// alignment or to no alignment at all.
pub proof fn law_lowered_layouts(record: RustRecord, items: ItemMap)
    ensures
        ({
            let verdict = item_verdict(RustItem::Record(record), items);
            let bare = record.fields@.len() == 0 && record.size_bits is None
                && record.alignment_bits is None && record.packing_bits is None;
            let measured = record.size_bits is Some && record.alignment_bits is Some;
            let whole = record.size_bits->0 > 0 && record.size_bits->0 % 8 == 0 && aligns(
                record.alignment_bits->0,
            );
            let capped = record.packing_bits is Some ==> aligns(record.packing_bits->0)
                && record.alignment_bits->0 <= record.packing_bits->0;
            &&& record.kind is Opaque && bare ==> verdict == Verdict::Ok(())
            &&& record.kind is Opaque && !bare ==> verdict == broken(
                "opaque record carries concrete layout state"@,
            )
            &&& !(record.kind is Opaque) && !measured ==> verdict == broken(
                "concrete record lacks measured layout"@,
            )
            &&& !(record.kind is Opaque) && measured && !whole ==> verdict == broken(
                "concrete record carries an invalid byte layout"@,
            )
            &&& !(record.kind is Opaque) && measured && whole && !capped ==> verdict == broken(
                "concrete record carries an invalid packing cap"@,
            )
            &&& !(record.kind is Opaque) && measured && whole && capped && record.fields@.len() == 0
                ==> verdict == Verdict::Ok(())
        }),
{
    lemma_layout_passes(record);
}

/// A concrete record whose layout is that of whole bytes, within its packing,
/// passes on to its fields.
proof fn lemma_layout_passes(record: RustRecord)
    ensures
        !(record.kind is Opaque) && record.size_bits is Some && record.alignment_bits is Some
            && record.size_bits->0 > 0 && record.size_bits->0 % 8 == 0 && aligns(
            record.alignment_bits->0,
        ) ==> (record_layout_verdict(record) is Ok <==> (record.packing_bits is Some ==> aligns(
            record.packing_bits->0,
        ) && record.alignment_bits->0 <= record.packing_bits->0)),
{
    if let Some(packing) = record.packing_bits {
        if packing >= 8 && power_of_two(packing as nat) {
            lemma_whole_bytes(packing as nat);
        }
    }
}

/// A concrete record with a good layout is answered as the first of its fields
/// that is refused, and is accepted if none is. A field is refused if it is not
/// made of whole bytes at a whole byte, then if it is not at the start of a
/// union, then if it is a flexible array out of place, and is else answered as
/// its type, by value.
pub proof fn law_lowered_fields(record: RustRecord, items: ItemMap, index: int)
    requires
        record.kind is Struct || record.kind is Union,
        record.size_bits matches Some(size) && size > 0 && size % 8 == 0,
        record.alignment_bits matches Some(alignment) && aligns(alignment),
        record.packing_bits matches Some(packing) ==> aligns(packing) && record.alignment_bits->0
            <= packing,
        0 <= index < record.fields@.len(),
    ensures
        ({
            let verdict = item_verdict(RustItem::Record(record), items);
            let fields = record.fields@;
            let of_type = |i: int| type_verdict(fields[i].ty, TypePosition::ByValue, items, seq![]);
            let first = forall|i: int|
                0 <= i < index ==> keeps_its_place(record, fields[i], i) && #[trigger] of_type(i)
                    is Ok;
            let whole = fields[index].offset_bits % 8 == 0 && fields[index].size_bits % 8 == 0;
            let starts = record.kind is Union ==> fields[index].offset_bits == 0;
            &&& first && !whole ==> verdict == broken("record field is not byte-addressable"@)
            &&& first && whole && !starts ==> verdict == broken(
                "union field has a nonzero measured offset"@,
            )
            &&& first && whole && starts && !keeps_its_place(record, fields[index], index)
                ==> verdict == broken("flexible array is not the final struct field"@)
            &&& first && keeps_its_place(record, fields[index], index) && of_type(index) is Err
                ==> verdict == of_type(index)
            &&& (forall|i: int|
                0 <= i < fields.len() ==> keeps_its_place(record, fields[i], i)
                    && #[trigger] of_type(i) is Ok) ==> verdict is Ok
        }),
{
    lemma_layout_passes(record);
    let fields = record.fields@;
    let of_type = |i: int| type_verdict(fields[i].ty, TypePosition::ByValue, items, seq![]);
    assert(seq![] =~= Seq::<DeclarationId>::empty());
    if forall|i: int|
        0 <= i < fields.len() ==> keeps_its_place(record, fields[i], i) && #[trigger] of_type(i)
            is Ok {
        assert forall|i: int| 0 <= i < fields.len() implies keeps_its_place(
            record,
            #[trigger] fields[i],
            i,
        ) && type_verdict(fields[i].ty, TypePosition::ByValue, items, Seq::empty()) is Ok by {
            assert(of_type(i) is Ok);
        }
        lemma_record_fields(record, fields.len(), items);
    }
    if forall|i: int|
        0 <= i < index ==> keeps_its_place(record, fields[i], i) && #[trigger] of_type(i) is Ok {
        assert forall|i: int| 0 <= i < index implies keeps_its_place(
            record,
            #[trigger] fields[i],
            i,
        ) && type_verdict(fields[i].ty, TypePosition::ByValue, items, Seq::empty()) is Ok by {
            assert(of_type(i) is Ok);
        }
        lemma_record_fields(record, index as nat, items);
        let next = (index + 1) as nat;
        if record_fields_verdict(record, next, items) is Err {
            lemma_record_fields_refused(record, next, fields.len(), items);
        }
    }
}

/// An enum is accepted exactly if it is not stored as a truth value or as a
/// floating-point number: an integer of any sign and any width will do. A type
/// alias is answered as its target, which it names and which it leads to. A
/// variable is refused if it is thread-local and is else answered as its type,
/// by value.
pub proof fn law_other_items(item: RustItem, items: ItemMap)
    ensures
        match item {
            RustItem::Enum(enumeration) => {
                &&& enumeration.storage is Bool || enumeration.storage is CFloat
                    || enumeration.storage is CDouble || enumeration.storage is F32
                    || enumeration.storage is F64 ==> item_verdict(item, items) == broken(
                    "enum storage is not an integer scalar"@,
                )
                &&& !(enumeration.storage is Bool || enumeration.storage is CFloat
                    || enumeration.storage is CDouble || enumeration.storage is F32
                    || enumeration.storage is F64) ==> item_verdict(item, items) == Verdict::Ok(())
            },
            RustItem::TypeAlias(alias) => item_verdict(item, items) == type_verdict(
                alias.target,
                TypePosition::AliasTarget,
                items,
                seq![alias.declaration],
            ),
            RustItem::Variable(variable) => {
                &&& variable.thread_local ==> item_verdict(item, items) == broken(
                    "post-lowering projection contains TLS"@,
                )
                &&& !variable.thread_local ==> item_verdict(item, items) == type_verdict(
                    variable.ty,
                    TypePosition::ByValue,
                    items,
                    seq![],
                )
            },
            RustItem::Function(_) | RustItem::Record(_) => true,
        },
{
    assert(seq![] =~= Seq::<DeclarationId>::empty());
}

/// A projection in which two items come from one declaration is refused for
/// that. Any other is answered as the first of its items that is refused, and
/// is accepted if none is.
pub proof fn law_first_item_decides(projection: ValidatedRustProjection, index: int)
    ensures
        ({
            let verdict = projection_verdict(projection);
            let all = projection.items@;
            let item = |i: int| item_verdict(all[i], item_map(all, all.len()));
            let repeats = exists|i: int, j: int|
                0 <= i < j < all.len() && held_declaration(#[trigger] all[i]) == held_declaration(
                    #[trigger] all[j],
                );
            &&& repeats ==> verdict == broken("post-lowering projection repeats a declaration"@)
            &&& !repeats && 0 <= index < all.len() && item(index) is Err && (forall|i: int|
                0 <= i < index ==> #[trigger] item(i) is Ok) ==> verdict == item(index)
            &&& !repeats && (forall|i: int| 0 <= i < all.len() ==> #[trigger] item(i) is Ok)
                ==> verdict is Ok
        }),
{
    let all = projection.items@;
    let items = item_map(all, all.len());
    let item = |i: int| item_verdict(all[i], items);
    if forall|i: int| 0 <= i < all.len() ==> #[trigger] item(i) is Ok {
        assert forall|i: int| 0 <= i < all.len() implies item_verdict(#[trigger] all[i], items)
            is Ok by {
            assert(item(i) is Ok);
        }
        lemma_items(all, all.len());
    }
    if 0 <= index < all.len() && item(index) is Err && forall|i: int|
        0 <= i < index ==> #[trigger] item(i) is Ok {
        assert forall|i: int| 0 <= i < index implies item_verdict(#[trigger] all[i], items)
            is Ok by {
            assert(item(i) is Ok);
        }
        lemma_items(all, index as nat);
        let next = (index + 1) as nat;
        assert(items_verdict(all, next) == item(index));
        lemma_items_refused(all, next, all.len());
    }
}

} // verus!

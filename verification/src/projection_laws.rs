//! What holds of every projection that the pass accepts, and of every one that
//! it refuses.
//!
//! The rules say in which order a projection is walked and so which refusal
//! comes first. The laws say, without any order, which projections are
//! accepted: those in which every use of a type that can be reached from an
//! item is admitted where it stands.
use vstd::arithmetic::power2::pow2;
use vstd::prelude::*;

use crate::error::{Refusal, Verdict};
use crate::position::TypePosition;
use crate::powers::power_of_two;
use crate::projection::{
    RustField, RustItem, RustParameter, RustRecord, RustScalar, RustType, RustTypeAlias,
    RustTypeKind, ValidatedRustProjection,
};
use crate::projection_rules::{
    callback_parameters_verdict, distinct_items, function_parameters_verdict, item_map,
    item_verdict, items_verdict, lemma_item_map, names_alias, projection_verdict,
    record_fields_verdict, type_verdict, ItemMap,
};
use crate::source::DeclarationId;
use crate::stack::{fresh, lemma_fresh, lemma_unvisited_push, unvisited};

verus! {

/// A type at the position at which it is used.
pub struct TypeUse {
    pub ty: RustType,
    pub position: TypePosition,
}

/// Whether a use names a type alias of the projection.
pub open spec fn looks_through(site: TypeUse, items: ItemMap) -> bool {
    &&& site.ty.kind is Named
    &&& items.contains_key(site.ty.kind->Named_declaration)
    &&& *items[site.ty.kind->Named_declaration] is TypeAlias
}

/// The declaration that an item was lowered from, as the item itself holds it.
pub open spec fn held_declaration(item: RustItem) -> DeclarationId {
    match item {
        RustItem::Function(function) => function.declaration,
        RustItem::Record(record) => record.declaration,
        RustItem::Enum(enumeration) => enumeration.declaration,
        RustItem::TypeAlias(alias) => alias.declaration,
        RustItem::Variable(variable) => variable.declaration,
    }
}

/// The Rust name of an item, as the item itself holds it.
pub open spec fn held_name(item: RustItem) -> Seq<char> {
    match item {
        RustItem::Function(function) => function.rust_name@,
        RustItem::Record(record) => record.rust_name@,
        RustItem::Enum(enumeration) => enumeration.rust_name@,
        RustItem::TypeAlias(alias) => alias.rust_name@,
        RustItem::Variable(variable) => variable.rust_name@,
    }
}

/// Whether a use of a type is admitted, where `aliases` lead to it, whatever it
/// is made of. The type must be understood. Scalars, pointers and flexible
/// arrays are then admitted everywhere; `void` only where it is returned or
/// pointed to; a fixed array unless it is empty; a callback unless it is
/// variadic; and a name if it is that of a type of the projection, which is no
/// opaque record held by value and no alias that leads to the use.
pub open spec fn use_admitted(site: TypeUse, items: ItemMap, aliases: Seq<DeclarationId>) -> bool {
    &&& site.ty.support is Supported
    &&& match site.ty.kind {
        RustTypeKind::Void => site.position is Return || site.position is BehindPointer,
        RustTypeKind::Scalar(_) => true,
        RustTypeKind::Pointer(_) => true,
        RustTypeKind::FlexibleArray { .. } => true,
        RustTypeKind::FixedArray { elements, .. } => elements > 0,
        RustTypeKind::FunctionPointer { variadic, .. } => !variadic,
        RustTypeKind::Named { declaration, rust_name } => {
            &&& items.contains_key(declaration)
            &&& held_name(*items[declaration]) == rust_name@
            &&& match *items[declaration] {
                RustItem::Record(record) => record.kind is Opaque ==> site.position is BehindPointer
                    || site.position is AliasTarget,
                RustItem::Enum(_) => true,
                RustItem::TypeAlias(_) => !aliases.contains(declaration),
                RustItem::Function(_) => false,
                RustItem::Variable(_) => false,
            }
        },
    }
}

/// The uses that a use is made of. A type alias is made of its target, used
/// where the alias is used.
pub open spec fn parts(site: TypeUse, items: ItemMap) -> Seq<TypeUse> {
    match site.ty.kind {
        RustTypeKind::Pointer(pointee) => seq![
            TypeUse { ty: *pointee, position: TypePosition::BehindPointer },
        ],
        RustTypeKind::FixedArray { element, .. } => seq![
            TypeUse { ty: *element, position: TypePosition::ByValue },
        ],
        RustTypeKind::FlexibleArray { element } => seq![
            TypeUse { ty: *element, position: TypePosition::ByValue },
        ],
        RustTypeKind::FunctionPointer { parameters, return_type, .. } => parameters@.map_values(
            |ty: RustType| TypeUse { ty, position: TypePosition::ByValue },
        ).push(TypeUse { ty: *return_type, position: TypePosition::Return }),
        RustTypeKind::Named { declaration, .. } => if looks_through(site, items) {
            seq![
                TypeUse {
                    ty: items[declaration]->TypeAlias_0.target,
                    position: site.position,
                },
            ]
        } else {
            seq![]
        },
        RustTypeKind::Void | RustTypeKind::Scalar(_) => seq![],
    }
}

/// The type alias that a use looks through, if it looks through one.
pub open spec fn opens(site: TypeUse, items: ItemMap) -> Seq<DeclarationId> {
    if looks_through(site, items) {
        seq![site.ty.kind->Named_declaration]
    } else {
        seq![]
    }
}

/// Whether each use after the first is a part of the one before it.
pub open spec fn is_walk(items: ItemMap, walk: Seq<TypeUse>) -> bool {
    &&& walk.len() > 0
    &&& forall|i: int|
        0 <= i < walk.len() - 1 ==> parts(#[trigger] walk[i], items).contains(walk[i + 1])
}

/// The type aliases that a walk looks through, in order.
pub open spec fn opened_along(items: ItemMap, walk: Seq<TypeUse>) -> Seq<DeclarationId>
    decreases walk.len(),
{
    if walk.len() == 0 {
        seq![]
    } else {
        opens(walk[0], items) + opened_along(items, walk.drop_first())
    }
}

/// Whether the last use of a walk is admitted, where `aliases` lead to the
/// first.
pub open spec fn ends_well(
    items: ItemMap,
    aliases: Seq<DeclarationId>,
    walk: Seq<TypeUse>,
) -> bool {
    use_admitted(walk.last(), items, aliases + opened_along(items, walk.drop_last()))
}

/// Whether the rules accept a use with all that it is made of.
pub open spec fn accepted(items: ItemMap, aliases: Seq<DeclarationId>, site: TypeUse) -> bool {
    type_verdict(site.ty, site.position, items, aliases) is Ok
}

/// The first parameters of a callback are accepted exactly if each is.
pub proof fn lemma_callback_parameters(
    parameters: Seq<RustType>,
    count: nat,
    items: ItemMap,
    aliases: Seq<DeclarationId>,
)
    requires
        items.dom().finite(),
        count <= parameters.len(),
    ensures
        callback_parameters_verdict(parameters, count, items, aliases) is Ok <==> forall|i: int|
            0 <= i < count ==> type_verdict(
                #[trigger] parameters[i],
                TypePosition::ByValue,
                items,
                aliases,
            ) is Ok,
    decreases count,
{
    if count > 0 {
        lemma_callback_parameters(parameters, (count - 1) as nat, items, aliases);
    }
}

/// A use is accepted exactly if it is admitted and each of its parts is
/// accepted.
proof fn lemma_parts(items: ItemMap, aliases: Seq<DeclarationId>, site: TypeUse)
    requires
        items.dom().finite(),
    ensures
        accepted(items, aliases, site) <==> use_admitted(site, items, aliases) && forall|i: int|
            0 <= i < parts(site, items).len() ==> accepted(
                items,
                aliases + opens(site, items),
                #[trigger] parts(site, items)[i],
            ),
{
    let below = aliases + opens(site, items);
    match site.ty.kind {
        RustTypeKind::FunctionPointer { parameters, return_type, .. } => {
            assert(below =~= aliases);
            lemma_callback_parameters(parameters@, parameters@.len(), items, aliases);
            let all = parts(site, items);
            assert(all[parameters@.len() as int] == TypeUse {
                ty: *return_type,
                position: TypePosition::Return,
            });
            assert forall|i: int| 0 <= i < parameters@.len() implies #[trigger] all[i] == (TypeUse {
                ty: parameters@[i],
                position: TypePosition::ByValue,
            }) by {}
            if forall|i: int| 0 <= i < all.len() ==> accepted(items, below, #[trigger] all[i]) {
                assert forall|i: int| 0 <= i < parameters@.len() implies type_verdict(
                    #[trigger] parameters@[i],
                    TypePosition::ByValue,
                    items,
                    aliases,
                ) is Ok by {
                    assert(accepted(items, below, all[i]));
                }
                assert(accepted(items, below, all[parameters@.len() as int]));
            }
        },
        RustTypeKind::Named { declaration, .. } => {
            if looks_through(site, items) {
                assert(below =~= aliases.push(declaration));
                assert(parts(site, items)[0] == parts(site, items).last());
            }
        },
        RustTypeKind::Pointer(_) | RustTypeKind::FixedArray { .. } | RustTypeKind::FlexibleArray {
            ..
        } => {
            assert(below =~= aliases);
            assert(parts(site, items)[0] == parts(site, items).last());
        },
        RustTypeKind::Void | RustTypeKind::Scalar(_) => {},
    }
}

/// A walk without its first use is a walk from a part of that use.
proof fn lemma_walk_rest(items: ItemMap, walk: Seq<TypeUse>)
    requires
        is_walk(items, walk),
        walk.len() > 1,
    ensures
        is_walk(items, walk.drop_first()),
        parts(walk[0], items).contains(walk.drop_first()[0]),
{
    let rest = walk.drop_first();
    assert(parts(walk[0], items).contains(walk[1]));
    assert forall|i: int| 0 <= i < rest.len() - 1 implies parts(#[trigger] rest[i], items).contains(
        rest[i + 1],
    ) by {
        assert(parts(walk[i + 1], items).contains(walk[i + 1 + 1]));
    }
}

/// A walk from an accepted use ends well.
proof fn lemma_accepted_walk(items: ItemMap, aliases: Seq<DeclarationId>, walk: Seq<TypeUse>)
    requires
        items.dom().finite(),
        is_walk(items, walk),
        accepted(items, aliases, walk[0]),
    ensures
        ends_well(items, aliases, walk),
    decreases walk.len(),
{
    lemma_parts(items, aliases, walk[0]);
    if walk.len() == 1 {
        assert(opened_along(items, walk.drop_last()) =~= seq![]);
        assert(aliases + opened_along(items, walk.drop_last()) =~= aliases);
    } else {
        let rest = walk.drop_first();
        let below = aliases + opens(walk[0], items);
        lemma_walk_rest(items, walk);
        lemma_accepted_walk(items, below, rest);
        assert(walk.drop_last().drop_first() =~= rest.drop_last());
        assert(walk.drop_last()[0] == walk[0]);
        assert(aliases + opened_along(items, walk.drop_last()) =~= below + opened_along(
            items,
            rest.drop_last(),
        ));
        assert(rest.last() == walk.last());
    }
}

/// A use from which every walk ends well is accepted.
proof fn lemma_walks_accepted(items: ItemMap, aliases: Seq<DeclarationId>, site: TypeUse)
    requires
        items.dom().finite(),
        forall|walk: Seq<TypeUse>| #[trigger]
            is_walk(items, walk) && walk[0] == site ==> ends_well(items, aliases, walk),
    ensures
        accepted(items, aliases, site),
    decreases unvisited(items.dom(), aliases), site.ty,
{
    let alone = seq![site];
    assert(is_walk(items, alone));
    assert(ends_well(items, aliases, alone));
    assert(alone.drop_last() =~= seq![]);
    assert(aliases + opened_along(items, alone.drop_last()) =~= aliases);
    assert(use_admitted(site, items, aliases));
    let below = aliases + opens(site, items);
    assert forall|i: int| 0 <= i < parts(site, items).len() implies accepted(
        items,
        below,
        #[trigger] parts(site, items)[i],
    ) by {
        let part = parts(site, items)[i];
        assert forall|walk: Seq<TypeUse>| #[trigger]
            is_walk(items, walk) && walk[0] == part implies ends_well(items, below, walk) by {
            let longer = seq![site] + walk;
            assert forall|j: int| 0 <= j < longer.len() - 1 implies parts(
                #[trigger] longer[j],
                items,
            ).contains(longer[j + 1]) by {
                if j > 0 {
                    assert(parts(walk[j - 1], items).contains(walk[j - 1 + 1]));
                }
            }
            assert(is_walk(items, longer));
            assert(ends_well(items, aliases, longer));
            assert(longer.drop_last().drop_first() =~= walk.drop_last());
            assert(longer.drop_last()[0] == site);
            assert(aliases + opened_along(items, longer.drop_last()) =~= below + opened_along(
                items,
                walk.drop_last(),
            ));
            assert(longer.last() == walk.last());
        }
        match site.ty.kind {
            RustTypeKind::Named { declaration, .. } => {
                assert(below =~= aliases.push(declaration));
                lemma_unvisited_push(items.dom(), aliases, declaration);
            },
            _ => {
                assert(below =~= aliases);
            },
        }
        lemma_walks_accepted(items, below, part);
    }
    lemma_parts(items, aliases, site);
}

/// A use of a type is accepted exactly if every use that a walk from it reaches
/// is admitted.
pub proof fn law_type_accepted(items: ItemMap, aliases: Seq<DeclarationId>, site: TypeUse)
    requires
        items.dom().finite(),
    ensures
        accepted(items, aliases, site) <==> forall|walk: Seq<TypeUse>| #[trigger]
            is_walk(items, walk) && walk[0] == site ==> ends_well(items, aliases, walk),
{
    if accepted(items, aliases, site) {
        assert forall|walk: Seq<TypeUse>| #[trigger]
            is_walk(items, walk) && walk[0] == site implies ends_well(items, aliases, walk) by {
            lemma_accepted_walk(items, aliases, walk);
        }
    } else if forall|walk: Seq<TypeUse>| #[trigger]
        is_walk(items, walk) && walk[0] == site ==> ends_well(items, aliases, walk) {
        lemma_walks_accepted(items, aliases, site);
    }
}

/// No walk from an accepted use looks through a type alias twice, or through
/// one of those that lead to the use.
pub proof fn law_aliases_never_repeat(
    items: ItemMap,
    aliases: Seq<DeclarationId>,
    walk: Seq<TypeUse>,
)
    requires
        items.dom().finite(),
        is_walk(items, walk),
        accepted(items, aliases, walk[0]),
    ensures
        fresh(aliases, opened_along(items, walk)),
    decreases walk.len(),
{
    lemma_parts(items, aliases, walk[0]);
    let here = opens(walk[0], items);
    let rest = walk.drop_first();
    if walk.len() > 1 {
        lemma_walk_rest(items, walk);
        law_aliases_never_repeat(items, aliases + here, rest);
    }
    lemma_fresh(aliases, here, opened_along(items, rest));
}

/// A walk from an accepted use meets an opaque record only where a record is
/// only named, however many type aliases lie between.
pub proof fn law_opaque_records_are_only_named(
    items: ItemMap,
    aliases: Seq<DeclarationId>,
    walk: Seq<TypeUse>,
    declaration: DeclarationId,
)
    requires
        items.dom().finite(),
        is_walk(items, walk),
        accepted(items, aliases, walk[0]),
        walk.last().ty.kind matches RustTypeKind::Named { declaration: named, .. } && named
            == declaration,
        *items[declaration] matches RustItem::Record(record) && record.kind is Opaque,
    ensures
        walk.last().position is BehindPointer || walk.last().position is AliasTarget,
{
    lemma_accepted_walk(items, aliases, walk);
}

/// Every item that a walk from an accepted use names is in the projection,
/// under the name that the use gives it, and is a type.
pub proof fn law_named_types_resolve(
    items: ItemMap,
    aliases: Seq<DeclarationId>,
    walk: Seq<TypeUse>,
)
    requires
        items.dom().finite(),
        is_walk(items, walk),
        accepted(items, aliases, walk[0]),
        walk.last().ty.kind is Named,
    ensures
        ({
            let declaration = walk.last().ty.kind->Named_declaration;
            &&& items.contains_key(declaration)
            &&& held_name(*items[declaration]) == walk.last().ty.kind->Named_rust_name@
            &&& *items[declaration] is Record || *items[declaration] is Enum
                || *items[declaration] is TypeAlias
        }),
{
    lemma_accepted_walk(items, aliases, walk);
}

/// A use of a type alias is judged as a use of its target at the same
/// position.
pub proof fn law_alias_use_is_target_use(
    ty: RustType,
    position: TypePosition,
    items: ItemMap,
    aliases: Seq<DeclarationId>,
)
    requires
        items.dom().finite(),
        ty.support is Supported,
        looks_through(TypeUse { ty, position }, items),
        held_name(*items[ty.kind->Named_declaration]) == ty.kind->Named_rust_name@,
        !aliases.contains(ty.kind->Named_declaration),
    ensures
        type_verdict(ty, position, items, aliases) == type_verdict(
            items[ty.kind->Named_declaration]->TypeAlias_0.target,
            position,
            items,
            aliases.push(ty.kind->Named_declaration),
        ),
{
}

/// Whether `ty` names the item `id` of the projection as the projection does.
pub open spec fn names_item(ty: RustType, items: ItemMap, id: DeclarationId) -> bool {
    &&& ty.support is Supported
    &&& ty.kind matches RustTypeKind::Named { declaration, rust_name } && declaration == id
        && items.contains_key(id) && held_name(*items[id]) == rust_name@
}

/// Naming an opaque record is not using one: a type alias of an opaque record
/// is accepted, a use of that alias is accepted exactly where a record is only
/// named, and any other use of it is refused as a use of an opaque record.
pub proof fn law_alias_of_opaque_record(
    ty: RustType,
    position: TypePosition,
    items: ItemMap,
    alias: DeclarationId,
    record: DeclarationId,
)
    requires
        items.dom().finite(),
        items.contains_key(alias),
        *items[alias] is TypeAlias,
        items[alias]->TypeAlias_0.declaration == alias,
        names_item(items[alias]->TypeAlias_0.target, items, record),
        *items[record] matches RustItem::Record(opaque) && opaque.kind is Opaque,
        names_item(ty, items, alias),
    ensures
        item_verdict(*items[alias], items) is Ok,
        position is BehindPointer || position is AliasTarget ==> type_verdict(
            ty,
            position,
            items,
            Seq::empty(),
        ) is Ok,
        position is ByValue || position is Return || position is Parameter ==> type_verdict(
            ty,
            position,
            items,
            Seq::empty(),
        ) == Verdict::Err(
            Refusal::ProjectionInvariant {
                reason: "opaque record remains in a by-value Rust position"@,
            },
        ),
{
    law_alias_use_is_target_use(ty, position, items, Seq::empty());
}

/// Behind a pointer everything is accepted that is accepted anywhere.
pub proof fn law_behind_pointer_accepts_most(
    ty: RustType,
    position: TypePosition,
    items: ItemMap,
    aliases: Seq<DeclarationId>,
)
    requires
        items.dom().finite(),
        type_verdict(ty, position, items, aliases) is Ok,
    ensures
        type_verdict(ty, TypePosition::BehindPointer, items, aliases) is Ok,
    decreases unvisited(items.dom(), aliases),
{
    if looks_through(TypeUse { ty, position }, items) {
        let declaration = ty.kind->Named_declaration;
        lemma_unvisited_push(items.dom(), aliases, declaration);
        law_behind_pointer_accepts_most(
            items[declaration]->TypeAlias_0.target,
            position,
            items,
            aliases.push(declaration),
        );
    }
}

/// Whether an item keeps the rules that do not concern the types it uses.
pub open spec fn keeps_own_rules(item: RustItem) -> bool {
    match item {
        RustItem::Function(function) => {
            &&& !function.variadic
            &&& forall|i: int|
                0 <= i < function.parameters@.len() ==> !((
                #[trigger] function.parameters@[i]).ty.kind is Void)
        },
        RustItem::Record(record) => if record.kind is Opaque {
            &&& record.fields@.len() == 0
            &&& record.size_bits is None
            &&& record.alignment_bits is None
            &&& record.packing_bits is None
        } else {
            &&& record.size_bits matches Some(size) && size > 0 && size % 8 == 0
            &&& record.alignment_bits matches Some(alignment) && alignment >= 8 && exists|
                exponent: nat,
            | #[trigger] pow2(exponent) == alignment
            &&& record.packing_bits matches Some(packing) ==> packing >= 8 && (exists|exponent: nat|
             #[trigger] pow2(exponent) == packing) && record.alignment_bits->0 <= packing
            &&& forall|i: int|
                0 <= i < record.fields@.len() ==> keeps_its_place(
                    record,
                    #[trigger] record.fields@[i],
                    i,
                )
        },
        RustItem::Enum(enumeration) => match enumeration.storage {
            RustScalar::CInt { .. } => true,
            RustScalar::Integer { .. } => true,
            RustScalar::Bool => false,
            RustScalar::CFloat { .. } => false,
            RustScalar::CDouble { .. } => false,
            RustScalar::F32 => false,
            RustScalar::F64 => false,
        },
        RustItem::TypeAlias(_) => true,
        RustItem::Variable(variable) => !variable.thread_local,
    }
}

/// Whether a field is made of whole bytes at a whole byte, at the start of a
/// union, and last in a struct if it is a flexible array.
pub open spec fn keeps_its_place(record: RustRecord, field: RustField, index: int) -> bool {
    &&& field.offset_bits % 8 == 0
    &&& field.size_bits % 8 == 0
    &&& record.kind is Union ==> field.offset_bits == 0
    &&& field.ty.kind is FlexibleArray ==> record.kind is Struct && index == record.fields@.len()
        - 1
}

/// The uses of types that an item itself makes.
pub open spec fn roots(item: RustItem) -> Seq<TypeUse> {
    match item {
        RustItem::Function(function) => function.parameters@.map_values(
            |parameter: RustParameter|
                TypeUse { ty: parameter.ty, position: TypePosition::ByValue },
        ).push(TypeUse { ty: function.return_type, position: TypePosition::Return }),
        RustItem::Record(record) => record.fields@.map_values(
            |field: RustField| TypeUse { ty: field.ty, position: TypePosition::ByValue },
        ),
        RustItem::Enum(_) => seq![],
        RustItem::TypeAlias(alias) => seq![
            TypeUse { ty: alias.target, position: TypePosition::AliasTarget },
        ],
        RustItem::Variable(variable) => seq![
            TypeUse { ty: variable.ty, position: TypePosition::ByValue },
        ],
    }
}

/// The type alias that leads to what an item uses, if the item is one.
pub open spec fn root_aliases(item: RustItem) -> Seq<DeclarationId> {
    match item {
        RustItem::TypeAlias(alias) => seq![alias.declaration],
        _ => seq![],
    }
}

/// The first parameters of a function are accepted exactly if each is.
pub proof fn lemma_function_parameters(
    parameters: Seq<RustParameter>,
    count: nat,
    items: ItemMap,
)
    requires
        count <= parameters.len(),
    ensures
        function_parameters_verdict(parameters, count, items) is Ok <==> forall|i: int|
            0 <= i < count ==> !((#[trigger] parameters[i]).ty.kind is Void) && type_verdict(
                parameters[i].ty,
                TypePosition::ByValue,
                items,
                Seq::empty(),
            ) is Ok,
    decreases count,
{
    if count > 0 {
        lemma_function_parameters(parameters, (count - 1) as nat, items);
    }
}

/// The first fields of a concrete record are accepted exactly if each is.
pub proof fn lemma_record_fields(record: RustRecord, count: nat, items: ItemMap)
    requires
        count <= record.fields@.len(),
    ensures
        record_fields_verdict(record, count, items) is Ok <==> forall|i: int|
            0 <= i < count ==> keeps_its_place(record, #[trigger] record.fields@[i], i)
                && type_verdict(record.fields@[i].ty, TypePosition::ByValue, items, Seq::empty())
                is Ok,
    decreases count,
{
    if count > 0 {
        lemma_record_fields(record, (count - 1) as nat, items);
    }
}

/// A power of two of at least a byte is a number of whole bytes.
pub proof fn lemma_whole_bytes(bits: nat)
    requires
        bits >= 8,
        power_of_two(bits),
    ensures
        bits % 8 == 0,
{
    let exponent = choose|exponent: nat| pow2(exponent) == bits;
    vstd::arithmetic::power2::lemma2_to64();
    if exponent < 3 {
        assert(exponent == 0 || exponent == 1 || exponent == 2);
    } else {
        vstd::arithmetic::power2::lemma_pow2_adds(3, (exponent - 3) as nat);
        assert(bits == 8 * pow2((exponent - 3) as nat));
    }
}

/// An item is accepted exactly if it keeps its own rules and the types that it
/// uses are accepted.
pub proof fn law_item_accepted(item: RustItem, items: ItemMap)
    ensures
        item_verdict(item, items) is Ok <==> keeps_own_rules(item) && forall|i: int|
            0 <= i < roots(item).len() ==> accepted(
                items,
                root_aliases(item),
                #[trigger] roots(item)[i],
            ),
{
    let uses = roots(item);
    match item {
        RustItem::Function(function) => {
            let parameters = function.parameters@;
            lemma_function_parameters(parameters, parameters.len(), items);
            assert(uses[parameters.len() as int] == TypeUse {
                ty: function.return_type,
                position: TypePosition::Return,
            });
            assert forall|i: int| 0 <= i < parameters.len() implies #[trigger] uses[i] == (TypeUse {
                ty: parameters[i].ty,
                position: TypePosition::ByValue,
            }) by {}
            if keeps_own_rules(item) && forall|i: int|
                0 <= i < uses.len() ==> accepted(items, root_aliases(item), #[trigger] uses[i]) {
                assert forall|i: int| 0 <= i < parameters.len() implies !((
                #[trigger] parameters[i]).ty.kind is Void) && type_verdict(
                    parameters[i].ty,
                    TypePosition::ByValue,
                    items,
                    Seq::empty(),
                ) is Ok by {
                    assert(accepted(items, root_aliases(item), uses[i]));
                }
                assert(accepted(items, root_aliases(item), uses[parameters.len() as int]));
            }
        },
        RustItem::Record(record) => {
            lemma_record_fields(record, record.fields@.len(), items);
            if let Some(packing) = record.packing_bits {
                if packing >= 8 && power_of_two(packing as nat) {
                    lemma_whole_bytes(packing as nat);
                }
            }
            if forall|i: int|
                0 <= i < uses.len() ==> accepted(items, root_aliases(item), #[trigger] uses[i]) {
                assert forall|i: int| 0 <= i < record.fields@.len() implies type_verdict(
                    (#[trigger] record.fields@[i]).ty,
                    TypePosition::ByValue,
                    items,
                    Seq::empty(),
                ) is Ok by {
                    assert(accepted(items, root_aliases(item), uses[i]));
                }
            }
        },
        RustItem::Enum(_) => {},
        RustItem::TypeAlias(_) | RustItem::Variable(_) => {
            assert(uses[0] == uses.last());
        },
    }
}

/// The first items of a projection are accepted exactly if each is.
pub proof fn lemma_items(items: Seq<RustItem>, count: nat)
    requires
        count <= items.len(),
    ensures
        items_verdict(items, count) is Ok <==> forall|i: int|
            0 <= i < count ==> item_verdict(#[trigger] items[i], item_map(items, items.len()))
                is Ok,
    decreases count,
{
    if count > 0 {
        lemma_items(items, (count - 1) as nat);
    }
}

/// A projection is accepted exactly if no declaration repeats, every item
/// keeps its own rules, and every use of a type that a walk from an item
/// reaches is admitted.
pub proof fn law_projection_accepted(projection: ValidatedRustProjection)
    ensures
        projection_verdict(projection) is Ok <==> {
            let all = projection.items@;
            let items = item_map(all, all.len());
            &&& forall|i: int, j: int|
                0 <= i < j < all.len() ==> held_declaration(#[trigger] all[i]) != held_declaration(
                    #[trigger] all[j],
                )
            &&& forall|i: int| 0 <= i < all.len() ==> keeps_own_rules(#[trigger] all[i])
            &&& forall|i: int, walk: Seq<TypeUse>|
                0 <= i < all.len() && #[trigger] is_walk(items, walk) && roots(
                    #[trigger] all[i],
                ).contains(walk[0]) ==> ends_well(items, root_aliases(all[i]), walk)
        },
{
    let all = projection.items@;
    let items = item_map(all, all.len());
    lemma_item_map(all, all.len());
    lemma_items(all, all.len());
    if projection_verdict(projection) is Ok {
        assert forall|i: int| 0 <= i < all.len() implies keeps_own_rules(#[trigger] all[i]) by {
            law_item_accepted(all[i], items);
        }
        assert forall|i: int, walk: Seq<TypeUse>|
            0 <= i < all.len() && #[trigger] is_walk(items, walk) && roots(
                #[trigger] all[i],
            ).contains(walk[0]) implies ends_well(items, root_aliases(all[i]), walk) by {
            law_item_accepted(all[i], items);
            lemma_accepted_walk(items, root_aliases(all[i]), walk);
        }
    } else if distinct_items(all, all.len()) && (forall|i: int|
        0 <= i < all.len() ==> keeps_own_rules(#[trigger] all[i])) && (forall|
        i: int,
        walk: Seq<TypeUse>,
    |
        0 <= i < all.len() && #[trigger] is_walk(items, walk) && roots(
            #[trigger] all[i],
        ).contains(walk[0]) ==> ends_well(items, root_aliases(all[i]), walk)) {
        assert forall|i: int| 0 <= i < all.len() implies item_verdict(#[trigger] all[i], items)
            is Ok by {
            let item = all[i];
            assert forall|j: int| 0 <= j < roots(item).len() implies accepted(
                items,
                root_aliases(item),
                #[trigger] roots(item)[j],
            ) by {
                lemma_walks_accepted(items, root_aliases(item), roots(item)[j]);
            }
            law_item_accepted(item, items);
        }
    }
}

/// In an accepted projection no type alias leads back to itself.
pub proof fn law_no_alias_cycle(
    projection: ValidatedRustProjection,
    alias: RustTypeAlias,
    walk: Seq<TypeUse>,
)
    requires
        projection_verdict(projection) is Ok,
        projection.items@.contains(RustItem::TypeAlias(alias)),
        is_walk(item_map(projection.items@, projection.items@.len()), walk),
        walk[0] == (TypeUse { ty: alias.target, position: TypePosition::AliasTarget }),
    ensures
        ({
            let items = item_map(projection.items@, projection.items@.len());
            fresh(seq![alias.declaration], opened_along(items, walk))
        }),
{
    let all = projection.items@;
    let items = item_map(all, all.len());
    let item = RustItem::TypeAlias(alias);
    let i = choose|i: int| 0 <= i < all.len() && all[i] == item;
    lemma_item_map(all, all.len());
    lemma_items(all, all.len());
    assert(item_verdict(all[i], items) is Ok);
    law_aliases_never_repeat(items, seq![alias.declaration], walk);
}

/// The refusal of a type is that of a broken invariant.
proof fn lemma_type_refusals(
    ty: RustType,
    position: TypePosition,
    items: ItemMap,
    aliases: Seq<DeclarationId>,
)
    requires
        items.dom().finite(),
    ensures
        type_verdict(ty, position, items, aliases) matches Err(refusal)
            ==> refusal is ProjectionInvariant,
    decreases unvisited(items.dom(), aliases), ty, 0nat,
{
    match ty.kind {
        RustTypeKind::Pointer(pointee) => {
            lemma_type_refusals(*pointee, TypePosition::BehindPointer, items, aliases);
        },
        RustTypeKind::FixedArray { element, .. } => {
            lemma_type_refusals(*element, TypePosition::ByValue, items, aliases);
        },
        RustTypeKind::FlexibleArray { element } => {
            lemma_type_refusals(*element, TypePosition::ByValue, items, aliases);
        },
        RustTypeKind::Named { declaration, .. } => {
            if names_alias(ty, items) && !aliases.contains(declaration) {
                lemma_unvisited_push(items.dom(), aliases, declaration);
                lemma_type_refusals(
                    items[declaration]->TypeAlias_0.target,
                    position,
                    items,
                    aliases.push(declaration),
                );
            }
        },
        RustTypeKind::FunctionPointer { parameters, return_type, .. } => {
            lemma_callback_refusals(parameters@, parameters@.len(), items, aliases);
            lemma_type_refusals(*return_type, TypePosition::Return, items, aliases);
        },
        RustTypeKind::Void | RustTypeKind::Scalar(_) => {},
    }
}

/// The refusal of a callback's parameter is that of a broken invariant.
proof fn lemma_callback_refusals(
    parameters: Seq<RustType>,
    count: nat,
    items: ItemMap,
    aliases: Seq<DeclarationId>,
)
    requires
        items.dom().finite(),
        count <= parameters.len(),
    ensures
        callback_parameters_verdict(parameters, count, items, aliases) matches Err(refusal)
            ==> refusal is ProjectionInvariant,
    decreases unvisited(items.dom(), aliases), parameters, count,
{
    if count > 0 {
        lemma_callback_refusals(parameters, (count - 1) as nat, items, aliases);
        lemma_type_refusals(parameters[count - 1], TypePosition::ByValue, items, aliases);
    }
}

/// The refusal of an item is that of a broken invariant.
proof fn lemma_item_refusals(item: RustItem, items: ItemMap)
    requires
        items.dom().finite(),
    ensures
        item_verdict(item, items) matches Err(refusal) ==> refusal is ProjectionInvariant,
{
    match item {
        RustItem::Function(function) => {
            lemma_type_refusals(
                function.return_type,
                TypePosition::Return,
                items,
                Seq::empty(),
            );
            lemma_parameter_refusals(function.parameters@, function.parameters@.len(), items);
        },
        RustItem::Record(record) => {
            lemma_field_refusals(record, record.fields@.len(), items);
        },
        RustItem::Enum(_) => {},
        RustItem::TypeAlias(alias) => {
            lemma_type_refusals(
                alias.target,
                TypePosition::AliasTarget,
                items,
                seq![alias.declaration],
            );
        },
        RustItem::Variable(variable) => {
            lemma_type_refusals(variable.ty, TypePosition::ByValue, items, Seq::empty());
        },
    }
}

/// The refusal of a function's parameter is that of a broken invariant.
proof fn lemma_parameter_refusals(parameters: Seq<RustParameter>, count: nat, items: ItemMap)
    requires
        items.dom().finite(),
    ensures
        function_parameters_verdict(parameters, count, items) matches Err(refusal)
            ==> refusal is ProjectionInvariant,
    decreases count,
{
    if count > 0 {
        lemma_parameter_refusals(parameters, (count - 1) as nat, items);
        lemma_type_refusals(
            parameters[count - 1].ty,
            TypePosition::ByValue,
            items,
            Seq::empty(),
        );
    }
}

/// The refusal of a record's field is that of a broken invariant.
proof fn lemma_field_refusals(record: RustRecord, count: nat, items: ItemMap)
    requires
        items.dom().finite(),
    ensures
        record_fields_verdict(record, count, items) matches Err(refusal)
            ==> refusal is ProjectionInvariant,
    decreases count,
{
    if count > 0 {
        lemma_field_refusals(record, (count - 1) as nat, items);
        lemma_type_refusals(
            record.fields@[count - 1].ty,
            TypePosition::ByValue,
            items,
            Seq::empty(),
        );
    }
}

/// The refusal of one of the first items is that of a broken invariant.
proof fn lemma_items_refusals(items: Seq<RustItem>, count: nat)
    requires
        count <= items.len(),
    ensures
        items_verdict(items, count) matches Err(refusal) ==> refusal is ProjectionInvariant,
    decreases count,
{
    if count > 0 {
        lemma_items_refusals(items, (count - 1) as nat);
        lemma_item_map(items, items.len());
        lemma_item_refusals(items[count - 1], item_map(items, items.len()));
    }
}

/// A refused projection is refused for a broken invariant, and for nothing
/// else.
pub proof fn law_refusals_are_broken_invariants(projection: ValidatedRustProjection)
    ensures
        projection_verdict(projection) matches Err(refusal) ==> refusal is ProjectionInvariant,
{
    lemma_items_refusals(projection.items@, projection.items@.len());
}

} // verus!

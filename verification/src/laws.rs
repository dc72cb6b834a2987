//! What holds of the descriptor of every type that is registered.

use vstd::prelude::*;
use crate::describe::{record_of, slots_of, variant_records};
use crate::descriptor::{DescriptorView, RecordView, TypeId};
use crate::register::{
    answer_of,
    dependencies,
    lemma_fields_fit,
    lemma_variants_fit,
    registered,
    resolved,
    resolved_fields,
    resolved_variants,
    Error,
};
use crate::shape::{Data, Field, Style, TypeRef, TypeShape, Variant};
use crate::store::submit;

verus! {


/// The id of a type that was registered is the place of its descriptor in the
/// store, which is the last. (Ids are 64 bits wide; the store must not have
/// outgrown them.)
pub proof fn law_id_is_last_place(shape: TypeShape<TypeRef>, store: Seq<DescriptorView>)
    requires
        registered(shape, store).result is Ok,
        registered(shape, store).store.len() <= u64::MAX,
    ensures
        registered(shape, store).store.len() > 0,
        registered(shape, store).result->Ok_0.0 == registered(shape, store).store.len() - 1,
{
}

/// A unit type is registered as a descriptor without slots under the type's
/// name, and nothing else is registered: the registration is the store's
/// answer to that one descriptor, whatever the store holds.
pub proof fn law_unit_has_no_slots(shape: TypeShape<TypeRef>, store: Seq<DescriptorView>)
    requires
        shape.data matches Data::Struct(Style::Unit, fields) && fields@.len() == 0,
    ensures
        ({
            let descriptor = DescriptorView::Record(
                RecordView { style: Style::Unit, name: shape.name@, slots: Seq::empty() },
            );
            &&& registered(shape, store).result == answer_of(submit(store, descriptor).0)
            &&& registered(shape, store).store == submit(store, descriptor).1
        }),
{
    let fields = shape.data->Struct_1;
    assert(slots_of(Style::Unit, fields@, Seq::<TypeId>::empty()) =~= Seq::empty());
}

/// The id that each field's type gets is the one that resolving that type
/// yields in the store as the fields before it left it.
pub proof fn lemma_field_ids(fields: Seq<Field<TypeRef>>, store: Seq<DescriptorView>, i: int)
    requires
        resolved_fields(fields, store).result is Ok,
        0 <= i < fields.len(),
    ensures
        ({
            let before = resolved_fields(fields.take(i), store);
            &&& before.result is Ok
            &&& resolved(fields[i].ty, before.store).result == Ok::<TypeId, Error>(
                resolved_fields(fields, store).result->Ok_0[i],
            )
        }),
    decreases fields.len(),
{
    if i == fields.len() - 1 {
        assert(fields.take(i) =~= fields.drop_last());
        lemma_fields_fit(fields.drop_last(), store);
    } else {
        assert(fields.drop_last().take(i) =~= fields.take(i));
        lemma_fields_fit(fields.drop_last(), store);
        lemma_field_ids(fields.drop_last(), store, i);
    }
}

/// The row of ids of each variant is the one that resolving the types of its
/// fields yields in the store as the variants before it left it.
pub proof fn lemma_variant_rows(
    variants: Seq<Variant<TypeRef>>,
    store: Seq<DescriptorView>,
    j: int,
)
    requires
        resolved_variants(variants, store).result is Ok,
        0 <= j < variants.len(),
    ensures
        ({
            let before = resolved_variants(variants.take(j), store);
            &&& before.result is Ok
            &&& resolved_fields(variants[j].fields@, before.store).result == Ok::<
                Seq<TypeId>,
                Error,
            >(resolved_variants(variants, store).result->Ok_0[j])
        }),
    decreases variants.len(),
{
    if j == variants.len() - 1 {
        assert(variants.take(j) =~= variants.drop_last());
        lemma_variants_fit(variants.drop_last(), store);
    } else {
        assert(variants.drop_last().take(j) =~= variants.take(j));
        lemma_variants_fit(variants.drop_last(), store);
        lemma_variant_rows(variants.drop_last(), store, j);
    }
}

/// A struct or tuple that is registered stands last in the store with one
/// slot for each field, in declared order. A slot bears the name of its field
/// in a struct and no name in a tuple, and it refers to the id that
/// registering the field's type yielded, in the store as the fields before it
/// left it.
pub proof fn law_slots_follow_fields(shape: TypeShape<TypeRef>, store: Seq<DescriptorView>)
    requires
        shape.data is Struct,
        registered(shape, store).result is Ok,
    ensures
        ({
            let style = shape.data->Struct_0;
            let fields = shape.data->Struct_1@;
            let after = registered(shape, store).store;
            &&& after.len() > 0
            &&& after.last() matches DescriptorView::Record(record)
            &&& record.style == style
            &&& record.name == shape.name@
            &&& record.slots.len() == fields.len()
            &&& forall|i: int|
                0 <= i < fields.len() ==> {
                    let before = resolved_fields(fields.take(i), store);
                    &&& before.result is Ok
                    &&& (#[trigger] record.slots[i]).name == if style.named() {
                        Some(fields[i].name@)
                    } else {
                        None
                    }
                    &&& resolved(fields[i].ty, before.store).result == Ok::<TypeId, Error>(
                        record.slots[i].type_id,
                    )
                }
        }),
{
    let style = shape.data->Struct_0;
    let fields = shape.data->Struct_1@;
    let type_ids = resolved_fields(fields, store).result->Ok_0;
    let rows = dependencies(shape, store).result->Ok_0;
    assert(rows == seq![type_ids]);
    let record = record_of(style, shape.name@, fields, type_ids);
    assert(registered(shape, store).store.last() == DescriptorView::Record(record));
    assert forall|i: int| 0 <= i < fields.len() implies {
        let before = resolved_fields(fields.take(i), store);
        &&& before.result is Ok
        &&& (#[trigger] record.slots[i]).name == if style.named() {
            Some(fields[i].name@)
        } else {
            None
        }
        &&& resolved(fields[i].ty, before.store).result == Ok::<TypeId, Error>(
            record.slots[i].type_id,
        )
    } by {
        lemma_field_ids(fields, store, i);
    }
}

/// A tuple with `k` elements that is registered has exactly `k` slots, none
/// of them named.
pub proof fn law_tuple_slots_are_unnamed(shape: TypeShape<TypeRef>, store: Seq<DescriptorView>)
    requires
        shape.data matches Data::Struct(Style::Tuple, _),
        registered(shape, store).result is Ok,
    ensures
        ({
            let fields = shape.data->Struct_1@;
            let after = registered(shape, store).store;
            &&& after.len() > 0
            &&& after.last() matches DescriptorView::Record(record)
            &&& record.style == Style::Tuple
            &&& record.slots.len() == fields.len()
            &&& forall|i: int| 0 <= i < fields.len() ==> (#[trigger] record.slots[i]).name is None
        }),
{
    law_slots_follow_fields(shape, store);
}

/// An enum that is registered stands last in the store with one record for
/// each variant, in declared order. The record of a variant is the one that a
/// struct of the variant's style, name and fields has, over the ids that
/// registering the types of the variant's fields yielded, in the store as the
/// variants before it left it.
pub proof fn law_variants_follow_declaration(
    shape: TypeShape<TypeRef>,
    store: Seq<DescriptorView>,
)
    requires
        shape.data is Enum,
        registered(shape, store).result is Ok,
    ensures
        ({
            let variants = shape.data->Enum_0@;
            let after = registered(shape, store).store;
            &&& after.len() > 0
            &&& after.last() matches DescriptorView::Enum { name, variants: records }
            &&& name == shape.name@
            &&& records.len() == variants.len()
            &&& forall|j: int|
                0 <= j < variants.len() ==> {
                    let before = resolved_variants(variants.take(j), store);
                    let row = resolved_fields(variants[j].fields@, before.store);
                    &&& before.result is Ok
                    &&& row.result is Ok
                    &&& #[trigger] records[j] == record_of(
                        variants[j].style,
                        variants[j].name@,
                        variants[j].fields@,
                        row.result->Ok_0,
                    )
                }
        }),
{
    let variants = shape.data->Enum_0@;
    let rows = resolved_variants(variants, store).result->Ok_0;
    let records = variant_records(variants, rows);
    assert(registered(shape, store).store.last() == DescriptorView::Enum {
        name: shape.name@,
        variants: records,
    });
    assert forall|j: int| 0 <= j < variants.len() implies {
        let before = resolved_variants(variants.take(j), store);
        let row = resolved_fields(variants[j].fields@, before.store);
        &&& before.result is Ok
        &&& row.result is Ok
        &&& #[trigger] records[j] == record_of(
            variants[j].style,
            variants[j].name@,
            variants[j].fields@,
            row.result->Ok_0,
        )
    } by {
        lemma_variant_rows(variants, store, j);
    }
}

} // verus!

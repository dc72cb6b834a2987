//! Dependencies come first: what a type depends on is registered, and has
//! its id, before the type itself.

use vstd::prelude::*;
use crate::describe::{record_of, variant_records};
use crate::descriptor::{DescriptorView, TypeId};
use crate::invariants::{
    law_fields_append,
    law_registration_appends,
    law_registration_counts,
    law_resolving_appends,
    law_variants_append,
};
use crate::laws::{law_id_is_last_place, lemma_field_ids, lemma_variant_rows};
use crate::register::{registered, resolved_fields, resolved_variants};
use crate::shape::{Field, TypeRef, TypeShape, Variant};

verus! {

/// The store only grows while the types of fields are resolved one after
/// the other.
pub proof fn lemma_fields_grow(fields: Seq<Field<TypeRef>>, store: Seq<DescriptorView>, count: int)
    requires
        0 <= count <= fields.len(),
    ensures
        resolved_fields(fields.take(count), store).store.is_prefix_of(
            resolved_fields(fields, store).store,
        ),
    decreases fields.len(),
{
    if count == fields.len() {
        assert(fields.take(count) =~= fields);
    } else {
        let before = resolved_fields(fields.drop_last(), store);
        assert(fields.drop_last().take(count) =~= fields.take(count));
        lemma_fields_grow(fields.drop_last(), store, count);
        if before.result is Ok {
            law_resolving_appends(fields.last().ty, before.store);
        }
    }
}

/// The store only grows while the variants are gone through one after the
/// other.
pub proof fn lemma_variants_grow(
    variants: Seq<Variant<TypeRef>>,
    store: Seq<DescriptorView>,
    count: int,
)
    requires
        0 <= count <= variants.len(),
    ensures
        resolved_variants(variants.take(count), store).store.is_prefix_of(
            resolved_variants(variants, store).store,
        ),
    decreases variants.len(),
{
    if count == variants.len() {
        assert(variants.take(count) =~= variants);
    } else {
        let before = resolved_variants(variants.drop_last(), store);
        assert(variants.drop_last().take(count) =~= variants.take(count));
        lemma_variants_grow(variants.drop_last(), store, count);
        if before.result is Ok {
            law_fields_append(variants.last().fields@, before.store);
        }
    }
}

/// Whether `id` was issued after `store` was as given and before the type
/// that stands last in `after` was registered.
pub open spec fn issued_between(
    id: TypeId,
    store: Seq<DescriptorView>,
    after: Seq<DescriptorView>,
) -> bool {
    store.len() <= id.0 < after.len() - 1
}

/// The ids of the field types that had to be registered were issued in the
/// store as the fields before left it and before the fields after were
/// looked at.
pub proof fn lemma_fields_come_first(
    fields: Seq<Field<TypeRef>>,
    store: Seq<DescriptorView>,
    i: int,
)
    requires
        resolved_fields(fields, store).result is Ok,
        resolved_fields(fields, store).store.len() <= u64::MAX,
        0 <= i < fields.len(),
        fields[i].ty is Nested,
    ensures
        store.len() <= resolved_fields(fields, store).result->Ok_0[i].0 < resolved_fields(
            fields,
            store,
        ).store.len(),
{
    let before = resolved_fields(fields.take(i), store);
    let shape = *fields[i].ty->Nested_0;
    lemma_field_ids(fields, store, i);
    law_fields_append(fields.take(i), store);
    law_registration_appends(shape, before.store);
    lemma_fields_grow(fields, store, i + 1);
    assert(fields.take(i + 1).drop_last() =~= fields.take(i));
    assert(fields.take(i + 1).last() == fields[i]);
    law_registration_counts(shape, before.store);
    law_id_is_last_place(shape, before.store);
}

/// Dependencies come first: the type of a field that had to be registered
/// got its id during this registration and before the type itself, so the
/// slot of the field refers to an earlier place in the store than the type's
/// own.
pub proof fn law_dependencies_come_first(shape: TypeShape<TypeRef>, store: Seq<DescriptorView>)
    requires
        shape.data is Struct,
        registered(shape, store).result is Ok,
        registered(shape, store).store.len() <= u64::MAX,
    ensures
        ({
            let fields = shape.data->Struct_1@;
            let after = registered(shape, store).store;
            &&& after.len() > 0
            &&& after.last() matches DescriptorView::Record(record)
            &&& record.slots.len() == fields.len()
            &&& forall|i: int|
                0 <= i < fields.len() && fields[i].ty is Nested ==> issued_between(
                    (#[trigger] record.slots[i]).type_id,
                    store,
                    after,
                )
        }),
{
    let fields = shape.data->Struct_1@;
    let after = registered(shape, store).store;
    let type_ids = resolved_fields(fields, store).result->Ok_0;
    let record = record_of(shape.data->Struct_0, shape.name@, fields, type_ids);
    assert(after.last() == DescriptorView::Record(record));
    assert forall|i: int| 0 <= i < fields.len() && fields[i].ty is Nested implies issued_between(
        (#[trigger] record.slots[i]).type_id,
        store,
        after,
    ) by {
        lemma_fields_come_first(fields, store, i);
    }
}

/// Dependencies come first in an enum too: the type of a variant's field
/// that had to be registered got its id during this registration and before
/// the enum itself.
pub proof fn law_variant_dependencies_come_first(
    shape: TypeShape<TypeRef>,
    store: Seq<DescriptorView>,
)
    requires
        shape.data is Enum,
        registered(shape, store).result is Ok,
        registered(shape, store).store.len() <= u64::MAX,
    ensures
        ({
            let variants = shape.data->Enum_0@;
            let after = registered(shape, store).store;
            &&& after.len() > 0
            &&& after.last() matches DescriptorView::Enum { variants: records, .. }
            &&& records.len() == variants.len()
            &&& forall|j: int, i: int|
                0 <= j < variants.len() && 0 <= i < variants[j].fields@.len()
                    && variants[j].fields@[i].ty is Nested ==> {
                    &&& records[j].slots.len() == variants[j].fields@.len()
                    &&& issued_between((#[trigger] records[j].slots[i]).type_id, store, after)
                }
        }),
{
    let variants = shape.data->Enum_0@;
    let after = registered(shape, store).store;
    let rows = resolved_variants(variants, store).result->Ok_0;
    let records = variant_records(variants, rows);
    assert(after.last() == DescriptorView::Enum { name: shape.name@, variants: records });
    assert forall|j: int, i: int|
        0 <= j < variants.len() && 0 <= i < variants[j].fields@.len()
            && variants[j].fields@[i].ty is Nested implies {
        &&& records[j].slots.len() == variants[j].fields@.len()
        &&& issued_between((#[trigger] records[j].slots[i]).type_id, store, after)
    } by {
        let before = resolved_variants(variants.take(j), store);
        lemma_variant_rows(variants, store, j);
        law_variants_append(variants.take(j), store);
        lemma_variants_grow(variants, store, j + 1);
        assert(variants.take(j + 1).drop_last() =~= variants.take(j));
        assert(variants.take(j + 1).last() == variants[j]);
        lemma_fields_come_first(variants[j].fields@, before.store, i);
    }
}

} // verus!

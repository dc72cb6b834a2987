//! What every registration keeps: the store only grows, by one descriptor
//! for each type; names stay unique; descriptors are well formed.

use vstd::prelude::*;
use crate::assemble::law_assembled_is_well_formed;
use crate::describe::{descriptor_of, fits, lemma_plan_assembles};
use crate::descriptor::{DescriptorView, TypeId};
use crate::plan::plan_of;
use crate::register::{
    dependencies,
    lemma_dependencies_fit,
    registered,
    resolved,
    resolved_fields,
    resolved_variants,
};
use crate::shape::{Data, Field, TypeRef, TypeShape, Variant};
use crate::store::{law_submit_keeps_names_unique, names_unique};

verus! {

/// Resolving a reference only ever appends to the store.
pub proof fn law_resolving_appends(ty: TypeRef, store: Seq<DescriptorView>)
    ensures
        store.is_prefix_of(resolved(ty, store).store),
    decreases ty,
{
    match ty {
        TypeRef::Known(_) => {},
        TypeRef::Nested(shape) => {
            law_registration_appends(*shape, store);
        },
    }
}

/// Resolving the types of fields only ever appends to the store.
pub proof fn law_fields_append(fields: Seq<Field<TypeRef>>, store: Seq<DescriptorView>)
    ensures
        store.is_prefix_of(resolved_fields(fields, store).store),
    decreases fields,
{
    if fields.len() > 0 {
        let before = resolved_fields(fields.drop_last(), store);
        law_fields_append(fields.drop_last(), store);
        if before.result is Ok {
            law_resolving_appends(fields.last().ty, before.store);
        }
    }
}

/// Resolving the types of the fields of variants only ever appends to the
/// store.
pub proof fn law_variants_append(variants: Seq<Variant<TypeRef>>, store: Seq<DescriptorView>)
    ensures
        store.is_prefix_of(resolved_variants(variants, store).store),
    decreases variants,
{
    if variants.len() > 0 {
        let before = resolved_variants(variants.drop_last(), store);
        law_variants_append(variants.drop_last(), store);
        if before.result is Ok {
            law_fields_append(variants.last().fields@, before.store);
        }
    }
}

/// A registration only ever appends to the store, whether it succeeds or
/// fails: what was registered before stays, under the same ids.
pub proof fn law_registration_appends(shape: TypeShape<TypeRef>, store: Seq<DescriptorView>)
    ensures
        store.is_prefix_of(registered(shape, store).store),
    decreases shape,
{
    if shape.defect() is None {
        match shape.data {
            Data::Struct(_, fields) => {
                law_fields_append(fields@, store);
            },
            Data::Enum(variants) => {
                law_variants_append(variants@, store);
            },
        }
    }
}

/// Resolving a reference keeps the names in the store unique.
pub proof fn law_resolving_keeps_names_unique(ty: TypeRef, store: Seq<DescriptorView>)
    requires
        names_unique(store),
    ensures
        names_unique(resolved(ty, store).store),
    decreases ty,
{
    match ty {
        TypeRef::Known(_) => {},
        TypeRef::Nested(shape) => {
            law_registration_keeps_names_unique(*shape, store);
        },
    }
}

/// Resolving the types of fields keeps the names in the store unique.
pub proof fn law_fields_keep_names_unique(fields: Seq<Field<TypeRef>>, store: Seq<DescriptorView>)
    requires
        names_unique(store),
    ensures
        names_unique(resolved_fields(fields, store).store),
    decreases fields,
{
    if fields.len() > 0 {
        let before = resolved_fields(fields.drop_last(), store);
        law_fields_keep_names_unique(fields.drop_last(), store);
        if before.result is Ok {
            law_resolving_keeps_names_unique(fields.last().ty, before.store);
        }
    }
}

/// Resolving the types of the fields of variants keeps the names in the
/// store unique.
pub proof fn law_variants_keep_names_unique(
    variants: Seq<Variant<TypeRef>>,
    store: Seq<DescriptorView>,
)
    requires
        names_unique(store),
    ensures
        names_unique(resolved_variants(variants, store).store),
    decreases variants,
{
    if variants.len() > 0 {
        let before = resolved_variants(variants.drop_last(), store);
        law_variants_keep_names_unique(variants.drop_last(), store);
        if before.result is Ok {
            law_fields_keep_names_unique(variants.last().fields@, before.store);
        }
    }
}

/// A registration keeps the names in the store unique, whether it succeeds
/// or fails.
pub proof fn law_registration_keeps_names_unique(
    shape: TypeShape<TypeRef>,
    store: Seq<DescriptorView>,
)
    requires
        names_unique(store),
    ensures
        names_unique(registered(shape, store).store),
    decreases shape,
{
    if shape.defect() is None {
        match shape.data {
            Data::Struct(_, fields) => {
                law_fields_keep_names_unique(fields@, store);
            },
            Data::Enum(variants) => {
                law_variants_keep_names_unique(variants@, store);
            },
        }
        let resolved = dependencies(shape, store);
        if resolved.result is Ok {
            law_submit_keeps_names_unique(
                resolved.store,
                descriptor_of(shape, resolved.result->Ok_0),
            );
        }
    }
}

/// Whether every one of `entries` is well formed.
pub open spec fn all_well_formed(entries: Seq<DescriptorView>) -> bool {
    forall|i: int| 0 <= i < entries.len() ==> (#[trigger] entries[i]).well_formed()
}

/// The descriptor of a shape without defect is well formed: its records have
/// numbers of slots that their styles admit, named exactly in a struct.
pub proof fn law_descriptor_is_well_formed<R>(shape: TypeShape<R>, type_ids: Seq<Seq<TypeId>>)
    requires
        shape.defect() is None,
        fits(shape, type_ids),
    ensures
        descriptor_of(shape, type_ids).well_formed(),
{
    lemma_plan_assembles(shape, type_ids);
    law_assembled_is_well_formed(plan_of(shape).build, type_ids);
}

/// Resolving a reference registers well-formed descriptors only.
pub proof fn law_resolving_keeps_well_formed(ty: TypeRef, store: Seq<DescriptorView>)
    requires
        all_well_formed(store),
    ensures
        all_well_formed(resolved(ty, store).store),
    decreases ty,
{
    match ty {
        TypeRef::Known(_) => {},
        TypeRef::Nested(shape) => {
            law_registration_keeps_well_formed(*shape, store);
        },
    }
}

/// Resolving the types of fields registers well-formed descriptors only.
pub proof fn law_fields_keep_well_formed(fields: Seq<Field<TypeRef>>, store: Seq<DescriptorView>)
    requires
        all_well_formed(store),
    ensures
        all_well_formed(resolved_fields(fields, store).store),
    decreases fields,
{
    if fields.len() > 0 {
        let before = resolved_fields(fields.drop_last(), store);
        law_fields_keep_well_formed(fields.drop_last(), store);
        if before.result is Ok {
            law_resolving_keeps_well_formed(fields.last().ty, before.store);
        }
    }
}

/// Resolving the types of the fields of variants registers well-formed
/// descriptors only.
pub proof fn law_variants_keep_well_formed(
    variants: Seq<Variant<TypeRef>>,
    store: Seq<DescriptorView>,
)
    requires
        all_well_formed(store),
    ensures
        all_well_formed(resolved_variants(variants, store).store),
    decreases variants,
{
    if variants.len() > 0 {
        let before = resolved_variants(variants.drop_last(), store);
        law_variants_keep_well_formed(variants.drop_last(), store);
        if before.result is Ok {
            law_fields_keep_well_formed(variants.last().fields@, before.store);
        }
    }
}

/// A registration registers well-formed descriptors only, whether it
/// succeeds or fails.
pub proof fn law_registration_keeps_well_formed(
    shape: TypeShape<TypeRef>,
    store: Seq<DescriptorView>,
)
    requires
        all_well_formed(store),
    ensures
        all_well_formed(registered(shape, store).store),
    decreases shape,
{
    if shape.defect() is None {
        match shape.data {
            Data::Struct(_, fields) => {
                law_fields_keep_well_formed(fields@, store);
            },
            Data::Enum(variants) => {
                law_variants_keep_well_formed(variants@, store);
            },
        }
        let resolved = dependencies(shape, store);
        if resolved.result is Ok {
            lemma_dependencies_fit(shape, store);
            law_descriptor_is_well_formed(shape, resolved.result->Ok_0);
        }
    }
}

/// The number of types that resolving `ty` registers: none for a known
/// type, else the type itself and all that it depends on, each as often as
/// it is referred to.
pub open spec fn types_in(ty: TypeRef) -> nat
    decreases ty,
{
    match ty {
        TypeRef::Known(_) => 0,
        TypeRef::Nested(shape) => types_of(*shape),
    }
}

/// The number of types that resolving the types of `fields` registers.
pub open spec fn types_in_fields(fields: Seq<Field<TypeRef>>) -> nat
    decreases fields,
{
    if fields.len() == 0 {
        0
    } else {
        types_in_fields(fields.drop_last()) + types_in(fields.last().ty)
    }
}

/// The number of types that resolving the types of the fields of `variants`
/// registers.
pub open spec fn types_in_variants(variants: Seq<Variant<TypeRef>>) -> nat
    decreases variants,
{
    if variants.len() == 0 {
        0
    } else {
        types_in_variants(variants.drop_last()) + types_in_fields(variants.last().fields@)
    }
}

/// The number of types that registering a type of `shape` registers: the
/// type itself and all that it depends on.
pub open spec fn types_of(shape: TypeShape<TypeRef>) -> nat
    decreases shape,
{
    1 + match shape.data {
        Data::Struct(_, fields) => types_in_fields(fields@),
        Data::Enum(variants) => types_in_variants(variants@),
    }
}

/// Resolving a reference with success registers each type once.
pub proof fn law_resolving_counts(ty: TypeRef, store: Seq<DescriptorView>)
    requires
        resolved(ty, store).result is Ok,
    ensures
        resolved(ty, store).store.len() == store.len() + types_in(ty),
    decreases ty,
{
    match ty {
        TypeRef::Known(_) => {},
        TypeRef::Nested(shape) => {
            law_registration_counts(*shape, store);
        },
    }
}

/// Resolving the types of fields with success registers each type once.
pub proof fn law_fields_count(fields: Seq<Field<TypeRef>>, store: Seq<DescriptorView>)
    requires
        resolved_fields(fields, store).result is Ok,
    ensures
        resolved_fields(fields, store).store.len() == store.len() + types_in_fields(fields),
    decreases fields,
{
    if fields.len() > 0 {
        let before = resolved_fields(fields.drop_last(), store);
        law_fields_count(fields.drop_last(), store);
        law_resolving_counts(fields.last().ty, before.store);
    }
}

/// Resolving the types of the fields of variants with success registers each
/// type once.
pub proof fn law_variants_count(variants: Seq<Variant<TypeRef>>, store: Seq<DescriptorView>)
    requires
        resolved_variants(variants, store).result is Ok,
    ensures
        resolved_variants(variants, store).store.len() == store.len() + types_in_variants(
            variants,
        ),
    decreases variants,
{
    if variants.len() > 0 {
        let before = resolved_variants(variants.drop_last(), store);
        law_variants_count(variants.drop_last(), store);
        law_fields_count(variants.last().fields@, before.store);
    }
}

/// A registration that succeeds appends exactly one descriptor for the type
/// and one for each type it depends on, directly or not; the type itself
/// comes last.
pub proof fn law_registration_counts(shape: TypeShape<TypeRef>, store: Seq<DescriptorView>)
    requires
        registered(shape, store).result is Ok,
    ensures
        registered(shape, store).store.len() == store.len() + types_of(shape),
    decreases shape,
{
    match shape.data {
        Data::Struct(_, fields) => {
            law_fields_count(fields@, store);
        },
        Data::Enum(variants) => {
            law_variants_count(variants@, store);
        },
    }
}

} // verus!

//! What happens to a type that is registered a second time: it is refused.
//!
//! Registration keeps no memory of what it registered. A second registration
//! of a shape submits the same descriptors in the same order, and the store
//! refuses the first of them, because its name is taken.

use vstd::prelude::*;
use crate::descriptor::{DescriptorView, TypeId};
use crate::invariants::{law_fields_append, law_resolving_appends};
use crate::register::{
    registered,
    resolved,
    resolved_fields,
    resolved_variants,
    Error,
    Outcome,
};
use crate::shape::{Data, Field, TypeRef, TypeShape, Variant};
use crate::store::{lemma_position, position, StoreError};

verus! {

/// The name of the type that resolving `ty` submits first, if it submits
/// any.
pub open spec fn first_name_in(ty: TypeRef) -> Option<Seq<char>>
    decreases ty,
{
    match ty {
        TypeRef::Known(_) => None,
        TypeRef::Nested(shape) => Some(first_name(*shape)),
    }
}

/// The name of the type that resolving the types of `fields` submits first.
pub open spec fn first_name_in_fields(fields: Seq<Field<TypeRef>>) -> Option<Seq<char>>
    decreases fields,
{
    if fields.len() == 0 {
        None
    } else {
        match first_name_in_fields(fields.drop_last()) {
            Some(name) => Some(name),
            None => first_name_in(fields.last().ty),
        }
    }
}

/// The name of the type that resolving the types of the fields of `variants`
/// submits first.
pub open spec fn first_name_in_variants(variants: Seq<Variant<TypeRef>>) -> Option<Seq<char>>
    decreases variants,
{
    if variants.len() == 0 {
        None
    } else {
        match first_name_in_variants(variants.drop_last()) {
            Some(name) => Some(name),
            None => first_name_in_fields(variants.last().fields@),
        }
    }
}

/// The name of the type that resolving what `shape` depends on submits
/// first.
pub open spec fn first_name_below(shape: TypeShape<TypeRef>) -> Option<Seq<char>>
    decreases shape, 0nat,
{
    match shape.data {
        Data::Struct(_, fields) => first_name_in_fields(fields@),
        Data::Enum(variants) => first_name_in_variants(variants@),
    }
}

/// The name of the type that registering a type of `shape` submits first:
/// that of the first type it depends on that depends on no other, or its
/// own.
pub open spec fn first_name(shape: TypeShape<TypeRef>) -> Seq<char>
    decreases shape, 1nat,
{
    match first_name_below(shape) {
        Some(name) => name,
        None => shape.name@,
    }
}

/// Whether no shape behind `ty` has a defect.
pub open spec fn sound_ref(ty: TypeRef) -> bool
    decreases ty,
{
    match ty {
        TypeRef::Known(_) => true,
        TypeRef::Nested(shape) => sound(*shape),
    }
}

/// Whether no shape behind the types of `fields` has a defect.
pub open spec fn sound_fields(fields: Seq<Field<TypeRef>>) -> bool
    decreases fields,
{
    fields.len() == 0 || (sound_fields(fields.drop_last()) && sound_ref(fields.last().ty))
}

/// Whether no shape behind the types of the fields of `variants` has a
/// defect.
pub open spec fn sound_variants(variants: Seq<Variant<TypeRef>>) -> bool
    decreases variants,
{
    variants.len() == 0 || (sound_variants(variants.drop_last()) && sound_fields(
        variants.last().fields@,
    ))
}

/// Whether neither `shape` nor any shape it depends on has a defect.
pub open spec fn sound(shape: TypeShape<TypeRef>) -> bool
    decreases shape,
{
    &&& shape.defect() is None
    &&& match shape.data {
        Data::Struct(_, fields) => sound_fields(fields@),
        Data::Enum(variants) => sound_variants(variants@),
    }
}

/// What a refusal looks like: the type registered at place `holder` has the
/// name, and the store is as before.
pub open spec fn refused<T>(store: Seq<DescriptorView>, holder: int) -> Outcome<T> {
    Outcome {
        result: Err(Error::Store(StoreError::DuplicateName(TypeId(holder as u64)))),
        store,
    }
}

/// A reference that resolves has no defect behind it.
pub proof fn lemma_resolved_is_sound(ty: TypeRef, store: Seq<DescriptorView>)
    requires
        resolved(ty, store).result is Ok,
    ensures
        sound_ref(ty),
    decreases ty,
{
    match ty {
        TypeRef::Known(_) => {},
        TypeRef::Nested(shape) => {
            lemma_registered_is_sound(*shape, store);
        },
    }
}

/// Fields whose types resolve have no defect behind them.
pub proof fn lemma_resolved_fields_are_sound(
    fields: Seq<Field<TypeRef>>,
    store: Seq<DescriptorView>,
)
    requires
        resolved_fields(fields, store).result is Ok,
    ensures
        sound_fields(fields),
    decreases fields,
{
    if fields.len() > 0 {
        lemma_resolved_fields_are_sound(fields.drop_last(), store);
        lemma_resolved_is_sound(fields.last().ty, resolved_fields(fields.drop_last(), store).store);
    }
}

/// Variants whose field types resolve have no defect behind them.
pub proof fn lemma_resolved_variants_are_sound(
    variants: Seq<Variant<TypeRef>>,
    store: Seq<DescriptorView>,
)
    requires
        resolved_variants(variants, store).result is Ok,
    ensures
        sound_variants(variants),
    decreases variants,
{
    if variants.len() > 0 {
        lemma_resolved_variants_are_sound(variants.drop_last(), store);
        lemma_resolved_fields_are_sound(
            variants.last().fields@,
            resolved_variants(variants.drop_last(), store).store,
        );
    }
}

/// A shape that was registered is sound.
pub proof fn lemma_registered_is_sound(shape: TypeShape<TypeRef>, store: Seq<DescriptorView>)
    requires
        registered(shape, store).result is Ok,
    ensures
        sound(shape),
    decreases shape,
{
    match shape.data {
        Data::Struct(_, fields) => {
            lemma_resolved_fields_are_sound(fields@, store);
        },
        Data::Enum(variants) => {
            lemma_resolved_variants_are_sound(variants@, store);
        },
    }
}

/// What resolving a reference appends first bears the first name; a
/// reference that submits nothing leaves the store as it is.
pub proof fn lemma_first_of_resolved(ty: TypeRef, store: Seq<DescriptorView>)
    requires
        resolved(ty, store).result is Ok,
    ensures
        match first_name_in(ty) {
            Some(name) => {
                let after = resolved(ty, store).store;
                after.len() > store.len() && after[store.len() as int].name() == name
            },
            None => resolved(ty, store).store == store,
        },
    decreases ty,
{
    match ty {
        TypeRef::Known(_) => {},
        TypeRef::Nested(shape) => {
            lemma_first_of_registered(*shape, store);
        },
    }
}

/// What resolving the types of fields appends first bears the first name;
/// fields that submit nothing leave the store as it is.
pub proof fn lemma_first_of_fields(fields: Seq<Field<TypeRef>>, store: Seq<DescriptorView>)
    requires
        resolved_fields(fields, store).result is Ok,
    ensures
        match first_name_in_fields(fields) {
            Some(name) => {
                let after = resolved_fields(fields, store).store;
                after.len() > store.len() && after[store.len() as int].name() == name
            },
            None => resolved_fields(fields, store).store == store,
        },
    decreases fields,
{
    if fields.len() > 0 {
        let before = resolved_fields(fields.drop_last(), store);
        lemma_first_of_fields(fields.drop_last(), store);
        lemma_first_of_resolved(fields.last().ty, before.store);
        law_resolving_appends(fields.last().ty, before.store);
    }
}

/// What resolving the types of the fields of variants appends first bears
/// the first name; variants that submit nothing leave the store as it is.
pub proof fn lemma_first_of_variants(variants: Seq<Variant<TypeRef>>, store: Seq<DescriptorView>)
    requires
        resolved_variants(variants, store).result is Ok,
    ensures
        match first_name_in_variants(variants) {
            Some(name) => {
                let after = resolved_variants(variants, store).store;
                after.len() > store.len() && after[store.len() as int].name() == name
            },
            None => resolved_variants(variants, store).store == store,
        },
    decreases variants,
{
    if variants.len() > 0 {
        let before = resolved_variants(variants.drop_last(), store);
        lemma_first_of_variants(variants.drop_last(), store);
        lemma_first_of_fields(variants.last().fields@, before.store);
        law_fields_append(variants.last().fields@, before.store);
    }
}

/// What a registration appends first bears the first name.
pub proof fn lemma_first_of_registered(shape: TypeShape<TypeRef>, store: Seq<DescriptorView>)
    requires
        registered(shape, store).result is Ok,
    ensures
        registered(shape, store).store.len() > store.len(),
        registered(shape, store).store[store.len() as int].name() == first_name(shape),
    decreases shape,
{
    match shape.data {
        Data::Struct(_, fields) => {
            lemma_first_of_fields(fields@, store);
        },
        Data::Enum(variants) => {
            lemma_first_of_variants(variants@, store);
        },
    }
}

/// Resolving a reference whose first name is taken is refused.
pub proof fn lemma_taken_ref(ty: TypeRef, store: Seq<DescriptorView>)
    requires
        sound_ref(ty),
    ensures
        match first_name_in(ty) {
            Some(name) => position(store, name) matches Some(holder) ==> resolved(ty, store)
                == refused::<TypeId>(store, holder),
            None => resolved(ty, store).result is Ok && resolved(ty, store).store == store,
        },
    decreases ty,
{
    match ty {
        TypeRef::Known(_) => {},
        TypeRef::Nested(shape) => {
            lemma_taken(*shape, store);
        },
    }
}

/// Resolving the types of fields whose first name is taken is refused.
pub proof fn lemma_taken_fields(fields: Seq<Field<TypeRef>>, store: Seq<DescriptorView>)
    requires
        sound_fields(fields),
    ensures
        match first_name_in_fields(fields) {
            Some(name) => position(store, name) matches Some(holder) ==> resolved_fields(
                fields,
                store,
            ) == refused::<Seq<TypeId>>(store, holder),
            None => resolved_fields(fields, store).result is Ok && resolved_fields(
                fields,
                store,
            ).store == store,
        },
    decreases fields,
{
    if fields.len() > 0 {
        lemma_taken_fields(fields.drop_last(), store);
        lemma_taken_ref(fields.last().ty, store);
    }
}

/// Resolving the types of the fields of variants whose first name is taken
/// is refused.
pub proof fn lemma_taken_variants(variants: Seq<Variant<TypeRef>>, store: Seq<DescriptorView>)
    requires
        sound_variants(variants),
    ensures
        match first_name_in_variants(variants) {
            Some(name) => position(store, name) matches Some(holder) ==> resolved_variants(
                variants,
                store,
            ) == refused::<Seq<Seq<TypeId>>>(store, holder),
            None => resolved_variants(variants, store).result is Ok && resolved_variants(
                variants,
                store,
            ).store == store,
        },
    decreases variants,
{
    if variants.len() > 0 {
        lemma_taken_variants(variants.drop_last(), store);
        lemma_taken_fields(variants.last().fields@, store);
    }
}

/// Registering a sound shape whose first name is taken is refused: the store
/// names the holder of that name and stays as it is.
pub proof fn lemma_taken(shape: TypeShape<TypeRef>, store: Seq<DescriptorView>)
    requires
        sound(shape),
    ensures
        position(store, first_name(shape)) matches Some(holder) ==> registered(shape, store)
            == refused::<TypeId>(store, holder),
    decreases shape,
{
    match shape.data {
        Data::Struct(_, fields) => {
            lemma_taken_fields(fields@, store);
        },
        Data::Enum(variants) => {
            lemma_taken_variants(variants@, store);
        },
    }
}

/// A type that was registered is refused when it is registered again in the
/// same store: nothing remembers that it is there. The store names the
/// holder of the first name that the registration submits, and stays as it
/// is.
pub proof fn law_registering_again_is_refused(
    shape: TypeShape<TypeRef>,
    store: Seq<DescriptorView>,
)
    requires
        registered(shape, store).result is Ok,
    ensures
        ({
            let after = registered(shape, store).store;
            &&& position(after, first_name(shape)) matches Some(holder)
            &&& registered(shape, after) == refused::<TypeId>(after, holder)
        }),
{
    let after = registered(shape, store).store;
    lemma_registered_is_sound(shape, store);
    lemma_first_of_registered(shape, store);
    lemma_position(after, first_name(shape));
    lemma_taken(shape, after);
}

} // verus!

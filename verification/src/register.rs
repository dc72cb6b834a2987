//! Registration: the types of the fields first, in declared order, then the
//! type itself.

use vstd::prelude::*;
use crate::assemble::{assemble, rows_view};
use crate::derive_schema_serialize;
use crate::describe::{descriptor_of, fits, lemma_plan_assembles};
use crate::descriptor::{DescriptorView, TypeId};
use crate::plan::{plan_of, registrations, registrations_view, Registration};
use crate::shape::{Data, Field, ShapeError, TypeRef, TypeShape, Variant};
use crate::store::{submit, SchemaStore, StoreError};

verus! {

/// Why a registration failed.
#[derive(Clone, Copy, Debug, PartialEq, Eq, Structural)]
pub enum Error {
    /// The shape of the type, or of a type it depends on, is not valid.
    Shape(ShapeError),
    /// The store refused the type, or a type it depends on.
    Store(StoreError),
}

/// How a registration ended: with what result, and what the store holds
/// afterwards.
pub struct Outcome<T> {
    pub result: Result<T, Error>,
    pub store: Seq<DescriptorView>,
}

/// What a store answers, as the result of a registration.
pub open spec fn answer_of(answer: Result<TypeId, StoreError>) -> Result<TypeId, Error> {
    match answer {
        Ok(id) => Ok(id),
        Err(error) => Err(Error::Store(error)),
    }
}

/// Resolving a reference: a known type has its id and leaves the store as it
/// is; the shape of another type is registered.
pub open spec fn resolved(ty: TypeRef, store: Seq<DescriptorView>) -> Outcome<TypeId>
    decreases ty,
{
    match ty {
        TypeRef::Known(id) => Outcome { result: Ok(id), store },
        TypeRef::Nested(shape) => registered(*shape, store),
    }
}

/// Resolving the types of `fields` in declared order, each in the store as
/// the one before left it. The first failure ends it.
pub open spec fn resolved_fields(fields: Seq<Field<TypeRef>>, store: Seq<DescriptorView>)
    -> Outcome<Seq<TypeId>>
    decreases fields,
{
    if fields.len() == 0 {
        Outcome { result: Ok(Seq::empty()), store }
    } else {
        let before = resolved_fields(fields.drop_last(), store);
        match before.result {
            Err(error) => Outcome { result: Err(error), store: before.store },
            Ok(type_ids) => {
                let last = resolved(fields.last().ty, before.store);
                match last.result {
                    Err(error) => Outcome { result: Err(error), store: last.store },
                    Ok(id) => Outcome { result: Ok(type_ids.push(id)), store: last.store },
                }
            },
        }
    }
}

/// Resolving the types of the fields of `variants`, variant by variant in
/// declared order. The first failure ends it.
pub open spec fn resolved_variants(variants: Seq<Variant<TypeRef>>, store: Seq<DescriptorView>)
    -> Outcome<Seq<Seq<TypeId>>>
    decreases variants,
{
    if variants.len() == 0 {
        Outcome { result: Ok(Seq::empty()), store }
    } else {
        let before = resolved_variants(variants.drop_last(), store);
        match before.result {
            Err(error) => Outcome { result: Err(error), store: before.store },
            Ok(rows) => {
                let last = resolved_fields(variants.last().fields@, before.store);
                match last.result {
                    Err(error) => Outcome { result: Err(error), store: last.store },
                    Ok(row) => Outcome { result: Ok(rows.push(row)), store: last.store },
                }
            },
        }
    }
}

/// Resolving the types that a type of `shape` depends on: one row of ids for
/// a struct, one row per variant for an enum.
pub open spec fn dependencies(shape: TypeShape<TypeRef>, store: Seq<DescriptorView>) -> Outcome<
    Seq<Seq<TypeId>>,
>
    decreases shape, 0nat,
{
    match shape.data {
        Data::Struct(_, fields) => {
            let row = resolved_fields(fields@, store);
            match row.result {
                Err(error) => Outcome { result: Err(error), store: row.store },
                Ok(type_ids) => Outcome { result: Ok(seq![type_ids]), store: row.store },
            }
        },
        Data::Enum(variants) => resolved_variants(variants@, store),
    }
}

/// Registering a type of `shape` in `store`. A shape with a defect is
/// refused and nothing is registered. Otherwise the types it depends on are
/// resolved in declared order; the first failure among them ends the
/// registration, with whatever was registered until then left in the store.
/// Then the descriptor is assembled from the ids and submitted to the store.
pub open spec fn registered(shape: TypeShape<TypeRef>, store: Seq<DescriptorView>) -> Outcome<
    TypeId,
>
    decreases shape, 1nat,
{
    match shape.defect() {
        Some(error) => Outcome { result: Err(Error::Shape(error)), store },
        None => {
            let resolved = dependencies(shape, store);
            match resolved.result {
                Err(error) => Outcome { result: Err(error), store: resolved.store },
                Ok(type_ids) => {
                    let (answer, after) = submit(resolved.store, descriptor_of(shape, type_ids));
                    Outcome { result: answer_of(answer), store: after }
                },
            }
        },
    }
}

/// Where resolving the first fields fails, resolving all of them fails in
/// the same way.
pub proof fn lemma_fields_fail(
    fields: Seq<Field<TypeRef>>,
    store: Seq<DescriptorView>,
    count: int,
)
    requires
        0 <= count <= fields.len(),
        resolved_fields(fields.take(count), store).result is Err,
    ensures
        resolved_fields(fields, store) == resolved_fields(fields.take(count), store),
    decreases fields.len(),
{
    if count == fields.len() {
        assert(fields.take(count) =~= fields);
    } else {
        assert(fields.drop_last().take(count) =~= fields.take(count));
        lemma_fields_fail(fields.drop_last(), store, count);
    }
}

/// Where resolving the first variants fails, resolving all of them fails in
/// the same way.
pub proof fn lemma_variants_fail(
    variants: Seq<Variant<TypeRef>>,
    store: Seq<DescriptorView>,
    count: int,
)
    requires
        0 <= count <= variants.len(),
        resolved_variants(variants.take(count), store).result is Err,
    ensures
        resolved_variants(variants, store) == resolved_variants(variants.take(count), store),
    decreases variants.len(),
{
    if count == variants.len() {
        assert(variants.take(count) =~= variants);
    } else {
        assert(variants.drop_last().take(count) =~= variants.take(count));
        lemma_variants_fail(variants.drop_last(), store, count);
    }
}

/// Resolved rows have one id for each field.
pub proof fn lemma_fields_fit(fields: Seq<Field<TypeRef>>, store: Seq<DescriptorView>)
    ensures
        resolved_fields(fields, store).result matches Ok(type_ids) ==> type_ids.len()
            == fields.len(),
    decreases fields.len(),
{
    if fields.len() > 0 {
        lemma_fields_fit(fields.drop_last(), store);
    }
}

/// Resolved variants have one row for each variant and, in it, one id for
/// each field.
pub proof fn lemma_variants_fit(variants: Seq<Variant<TypeRef>>, store: Seq<DescriptorView>)
    ensures
        resolved_variants(variants, store).result matches Ok(rows) ==> {
            &&& rows.len() == variants.len()
            &&& forall|j: int|
                0 <= j < variants.len() ==> (#[trigger] rows[j]).len() == variants[j].fields@.len()
        },
    decreases variants.len(),
{
    if variants.len() > 0 {
        let before = resolved_variants(variants.drop_last(), store);
        lemma_variants_fit(variants.drop_last(), store);
        if before.result is Ok {
            lemma_fields_fit(variants.last().fields@, before.store);
        }
    }
}

/// The ids of the types that a shape depends on fit the shape.
pub proof fn lemma_dependencies_fit(shape: TypeShape<TypeRef>, store: Seq<DescriptorView>)
    ensures
        dependencies(shape, store).result matches Ok(type_ids) ==> fits(shape, type_ids),
{
    match shape.data {
        Data::Struct(_, fields) => {
            lemma_fields_fit(fields@, store);
        },
        Data::Enum(variants) => {
            lemma_variants_fit(variants@, store);
        },
    }
}

/// The fields whose types row `row` of the plan of `shape` registers.
pub open spec fn row_fields(shape: TypeShape<TypeRef>, row: int) -> Seq<Field<TypeRef>> {
    match shape.data {
        Data::Struct(_, fields) => fields@,
        Data::Enum(variants) => variants@[row].fields@,
    }
}

/// Resolving the types that the first `rows` rows of the plan of `shape`
/// register.
pub open spec fn resolved_rows(shape: TypeShape<TypeRef>, rows: int, store: Seq<DescriptorView>)
    -> Outcome<Seq<Seq<TypeId>>> {
    match shape.data {
        Data::Struct(_, fields) => if rows == 0 {
            Outcome { result: Ok(Seq::empty()), store }
        } else {
            dependencies(shape, store)
        },
        Data::Enum(variants) => resolved_variants(variants@.take(rows), store),
    }
}

/// Resolves `ty` in `schema`: a known type has its id; the shape of another
/// type is registered.
pub fn resolve(ty: &TypeRef, schema: &mut SchemaStore) -> (result: Result<TypeId, Error>)
    ensures
        result == resolved(*ty, old(schema)@).result,
        final(schema)@ == resolved(*ty, old(schema)@).store,
    decreases *ty,
{
    match ty {
        TypeRef::Known(id) => Ok(*id),
        TypeRef::Nested(shape) => schema_register(shape, schema),
    }
}

/// Makes the registrations of one row, in order.
fn register_row(
    row: &[Registration<'_, TypeRef>],
    schema: &mut SchemaStore,
    Ghost(variant_idx): Ghost<int>,
    Ghost(fields): Ghost<Seq<Field<TypeRef>>>,
) -> (result: Result<Vec<TypeId>, Error>)
    requires
        registrations_view(row@) == registrations(variant_idx, fields),
    ensures
        final(schema)@ == resolved_fields(fields, old(schema)@).store,
        match result {
            Ok(type_ids) => resolved_fields(fields, old(schema)@).result == Ok::<
                Seq<TypeId>,
                Error,
            >(type_ids@),
            Err(error) => resolved_fields(fields, old(schema)@).result == Err::<
                Seq<TypeId>,
                Error,
            >(error),
        },
    decreases fields,
{
    let mut type_ids: Vec<TypeId> = Vec::new();
    let mut done: usize = 0;
    proof {
        assert(registrations_view(row@).len() == row@.len());
        assert(fields.take(0) =~= Seq::empty());
    }
    while done < row.len()
        invariant
            done <= row.len(),
            row@.len() == fields.len(),
            registrations_view(row@) == registrations(variant_idx, fields),
            resolved_fields(fields.take(done as int), old(schema)@) == (Outcome {
                result: Ok::<Seq<TypeId>, Error>(type_ids@),
                store: schema@,
            }),
        decreases row.len() - done,
    {
        let ty = row[done].ty;
        proof {
            assert(registrations_view(row@)[done as int].ty == *ty);
            assert(*ty == fields[done as int].ty);
            assert(fields.take(done + 1).drop_last() =~= fields.take(done as int));
            assert(fields.take(done + 1).last() == fields[done as int]);
        }
        match resolve(ty, schema) {
            Ok(id) => {
                type_ids.push(id);
            },
            Err(error) => {
                proof {
                    lemma_fields_fail(fields, old(schema)@, done + 1);
                }
                return Err(error);
            },
        }
        done += 1;
    }
    proof {
        assert(fields.take(done as int) =~= fields);
    }
    Ok(type_ids)
}

/// Registers a type of `shape` in `schema` and returns its id: the types it
/// depends on are registered first, in declared order, then the descriptor
/// is assembled from their ids and registered.
pub fn schema_register(shape: &TypeShape<TypeRef>, schema: &mut SchemaStore) -> (result: Result<
    TypeId,
    Error,
>)
    ensures
        result == registered(*shape, old(schema)@).result,
        final(schema)@ == registered(*shape, old(schema)@).store,
    decreases *shape,
{
    let plan = match derive_schema_serialize(shape) {
        Ok(plan) => plan,
        Err(error) => {
            return Err(Error::Shape(error));
        },
    };
    // Row `v` of the ids holds at place `f` the id of the type of field `f` of
    // variant `v`: the id that the plan has bound to that field's variable.
    let mut type_ids: Vec<Vec<TypeId>> = Vec::new();
    let mut variant_idx: usize = 0;
    proof {
        assert(rows_view(type_ids@) =~= Seq::empty());
        if shape.data is Enum {
            let variants = shape.data->Enum_0;
            assert(variants@.take(0) =~= Seq::empty());
        }
    }
    while variant_idx < plan.registrations.len()
        invariant
            variant_idx <= plan.registrations.len(),
            plan@ == plan_of(*shape),
            shape.defect() is None,
            resolved_rows(*shape, variant_idx as int, old(schema)@) == (Outcome {
                result: Ok::<Seq<Seq<TypeId>>, Error>(rows_view(type_ids@)),
                store: schema@,
            }),
        decreases plan.registrations.len() - variant_idx,
    {
        let ghost fields = row_fields(*shape, variant_idx as int);
        let ghost before = schema@;
        proof {
            let planned = plan_of(*shape).registrations;
            assert(plan.registrations@.len() == planned.len());
            assert(planned[variant_idx as int] == registrations_view(
                plan.registrations@[variant_idx as int]@,
            ));
            assert(planned[variant_idx as int] == registrations(variant_idx as int, fields));
            if shape.data is Enum {
                let variants = shape.data->Enum_0;
                assert(variants@.take(variant_idx + 1).drop_last() =~= variants@.take(
                    variant_idx as int,
                ));
            }
        }
        let row = match register_row(
            plan.registrations[variant_idx].as_slice(),
            schema,
            Ghost(variant_idx as int),
            Ghost(fields),
        ) {
            Ok(row) => row,
            Err(error) => {
                proof {
                    if shape.data is Enum {
                        let variants = shape.data->Enum_0;
                        lemma_variants_fail(variants@, old(schema)@, variant_idx + 1);
                    }
                }
                return Err(error);
            },
        };
        proof {
            assert(rows_view(type_ids@.push(row)) =~= rows_view(type_ids@).push(row@));
            if shape.data is Struct {
                assert(rows_view(type_ids@).push(row@) =~= seq![row@]);
            }
        }
        type_ids.push(row);
        variant_idx += 1;
    }
    proof {
        assert(plan.registrations@.len() == plan_of(*shape).registrations.len());
        if shape.data is Enum {
            let variants = shape.data->Enum_0;
            assert(variants@.take(variant_idx as int) =~= variants@);
        }
        lemma_dependencies_fit(*shape, old(schema)@);
        lemma_plan_assembles(*shape, rows_view(type_ids@));
    }
    let descriptor = assemble(plan.build.as_slice(), &type_ids);
    match schema.register(descriptor) {
        Ok(id) => Ok(id),
        Err(error) => Err(Error::Store(error)),
    }
}

} // verus!

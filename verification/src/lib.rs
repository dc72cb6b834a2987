//! Schema registration for data types described by their shape.
//!
//! A type is registered in three stages: the types of its fields are
//! registered, in declared order; a descriptor is assembled from the ids they
//! got; the descriptor is registered, and its id is the type's id.

use vstd::prelude::*;

pub mod assemble;
pub mod builder;
pub mod derive_enum;
pub mod derive_struct;
pub mod describe;
pub mod descriptor;
pub mod invariants;
pub mod laws;
pub mod names;
pub mod order;
pub mod plan;
pub mod register;
pub mod shape;
pub mod store;
pub mod twice;

use crate::derive_enum::derive_enum;
use crate::derive_struct::derive_struct;
use crate::plan::{
    plan_of,
    registrations,
    registrations_view,
    type_var,
    BuildStep,
    BuildStepView,
    Plan,
    Registration,
    TypeVar,
};
use crate::shape::{Data, Field, ShapeError, TypeShape};

verus! {

/// Plans the registration of a type of `shape`: which field types are
/// registered first, and the steps that then assemble the descriptor. A
/// shape with a defect is an error.
pub fn derive_schema_serialize<'a, R>(shape: &'a TypeShape<R>) -> (plan: Result<
    Plan<'a, R>,
    ShapeError,
>)
    ensures
        match shape.defect() {
            Some(error) => plan == Err::<Plan<'a, R>, ShapeError>(error),
            None => plan is Ok && plan->Ok_0@ == plan_of(*shape),
        },
{
    match &shape.data {
        Data::Enum(variants) => derive_enum(variants.as_slice(), shape.name.as_str()),
        Data::Struct(style, fields) => derive_struct(
            style,
            fields.as_slice(),
            shape.name.as_str(),
        ),
    }
}

/// The variable that holds the type id of field `field_idx` of variant
/// `variant_idx`.
pub fn variant_field_type_variable(variant_idx: usize, field_idx: usize) -> (type_id: TypeVar)
    ensures
        type_id == type_var(variant_idx as int, field_idx as int),
{
    TypeVar { variant_idx, field_idx }
}

/// Plans the registration of the types of `fields`, in declared order.
pub fn derive_register_field_types<'a, R>(variant_idx: usize, fields: &'a [Field<R>]) -> (row: Vec<
    Registration<'a, R>,
>)
    ensures
        registrations_view(row@) == registrations(variant_idx as int, fields@),
{
    let mut expanded: Vec<Registration<'a, R>> = Vec::new();
    let mut field_idx: usize = 0;
    while field_idx < fields.len()
        invariant
            field_idx <= fields.len(),
            registrations_view(expanded@) == registrations(variant_idx as int, fields@).take(
                field_idx as int,
            ),
        decreases fields.len() - field_idx,
    {
        let type_id = variant_field_type_variable(variant_idx, field_idx);
        let registration = Registration { type_id, ty: &fields[field_idx].ty };
        proof {
            let planned = registrations(variant_idx as int, fields@);
            assert(registration@ == planned[field_idx as int]);
            assert(registrations_view(expanded@.push(registration)) =~= registrations_view(
                expanded@,
            ).push(registration@));
            assert(planned.take(field_idx + 1) =~= planned.take(field_idx as int).push(
                planned[field_idx as int],
            ));
        }
        expanded.push(registration);
        field_idx += 1;
    }
    proof {
        assert(registrations(variant_idx as int, fields@).take(field_idx as int)
            == registrations(variant_idx as int, fields@));
    }
    expanded
}

/// The step that appends `field`, which is field `field_idx` of variant
/// `variant_idx`, as a named slot.
pub fn derive_field<'a, R>(variant_idx: usize, field_idx: usize, field: &'a Field<R>) -> (step:
    BuildStep<'a>)
    ensures
        step@ == (BuildStepView::Field {
            name: field.name@,
            type_id: type_var(variant_idx as int, field_idx as int),
        }),
{
    let type_id = variant_field_type_variable(variant_idx, field_idx);
    BuildStep::Field { name: field.name.as_str(), type_id }
}

/// The step that appends element `element_idx` of variant `variant_idx` as an
/// unnamed slot.
pub fn derive_element<'a>(variant_idx: usize, element_idx: usize) -> (step: BuildStep<'a>)
    ensures
        step@ == (BuildStepView::Element {
            type_id: type_var(variant_idx as int, element_idx as int),
        }),
{
    let type_id = variant_field_type_variable(variant_idx, element_idx);
    BuildStep::Element { type_id }
}

} // verus!

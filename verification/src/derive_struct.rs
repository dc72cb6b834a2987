//! Plans for structs: unit, newtype, tuple and named fields.

use vstd::prelude::*;
use crate::plan::{
    element_steps,
    field_steps,
    registrations,
    registrations_view,
    steps_view,
    struct_plan,
    BuildStep,
    BuildStepView,
    Plan,
    Registration,
};
use crate::shape::{Field, Kind, ShapeError, Style};
use crate::{derive_element, derive_field, derive_register_field_types};

verus! {

/// Plans the registration of a struct of `style`, named `name`, with
/// `fields`. A style that does not admit the number of fields is an error.
pub fn derive_struct<'a, R>(style: &Style, fields: &'a [Field<R>], name: &'a str) -> (plan: Result<
    Plan<'a, R>,
    ShapeError,
>)
    ensures
        match plan {
            Ok(plan) => style.admits(fields@.len()) && plan@ == struct_plan(
                *style,
                fields@,
                name@,
            ),
            Err(error) => !style.admits(fields@.len()) && error == (ShapeError {
                style: *style,
                fields: fields.len(),
            }),
        },
{
    match style {
        Style::Struct => Ok(derive_struct_named_fields(fields, name)),
        Style::Newtype => derive_struct_newtype(fields, name),
        Style::Tuple => Ok(derive_struct_tuple(fields, name)),
        Style::Unit => if fields.len() == 0 {
            let plan = derive_struct_unit(name);
            proof {
                assert(fields@ =~= Seq::empty());
            }
            Ok(plan)
        } else {
            Err(ShapeError { style: Style::Unit, fields: fields.len() })
        },
    }
}

/// The one row of registrations that a struct has.
fn single_row<'a, R>(row: Vec<Registration<'a, R>>) -> (rows: Vec<Vec<Registration<'a, R>>>)
    ensures
        rows@.map_values(|row: Vec<Registration<'a, R>>| registrations_view(row@)) == seq![
            registrations_view(row@),
        ],
{
    let mut rows: Vec<Vec<Registration<'a, R>>> = Vec::new();
    rows.push(row);
    proof {
        assert(rows@.map_values(|row: Vec<Registration<'a, R>>| registrations_view(row@)) =~= seq![
            registrations_view(row@),
        ]);
    }
    rows
}

/// Plans a struct that wraps one type: the type is registered, then a
/// descriptor with that one slot is built. Anything but one field is an
/// error.
pub fn derive_struct_newtype<'a, R>(fields: &'a [Field<R>], name: &'a str) -> (plan: Result<
    Plan<'a, R>,
    ShapeError,
>)
    ensures
        match plan {
            Ok(plan) => fields@.len() == 1 && plan@ == struct_plan(Style::Newtype, fields@, name@),
            Err(error) => fields@.len() != 1 && error == (ShapeError {
                style: Style::Newtype,
                fields: fields.len(),
            }),
        },
{
    if fields.len() != 1 {
        return Err(ShapeError { style: Style::Newtype, fields: fields.len() });
    }
    let expanded_type_ids = derive_register_field_types(0, fields);
    let mut expanded_build_type: Vec<BuildStep<'a>> = Vec::new();
    expanded_build_type.push(BuildStep::Open { kind: Kind::Newtype, name, slots: 1 });
    expanded_build_type.push(derive_element(0, 0));
    expanded_build_type.push(BuildStep::Close);
    let plan = Plan { registrations: single_row(expanded_type_ids), build: expanded_build_type };
    proof {
        assert(plan@.build =~= struct_plan(Style::Newtype, fields@, name@).build);
    }
    Ok(plan)
}

/// Plans a struct without fields: nothing is registered first, and the
/// descriptor has no slots.
pub fn derive_struct_unit<'a, R>(name: &'a str) -> (plan: Plan<'a, R>)
    ensures
        plan@ == struct_plan(Style::Unit, Seq::<Field<R>>::empty(), name@),
{
    let expanded_type_ids: Vec<Registration<'a, R>> = Vec::new();
    let mut expanded_build_type: Vec<BuildStep<'a>> = Vec::new();
    expanded_build_type.push(BuildStep::Open { kind: Kind::Unit, name, slots: 0 });
    expanded_build_type.push(BuildStep::Close);
    proof {
        assert(registrations_view(expanded_type_ids@) =~= registrations(
            0,
            Seq::<Field<R>>::empty(),
        ));
    }
    let plan = Plan { registrations: single_row(expanded_type_ids), build: expanded_build_type };
    proof {
        assert(plan@.build =~= struct_plan(
            Style::Unit,
            Seq::<Field<R>>::empty(),
            name@,
        ).build);
    }
    plan
}

/// Plans a struct with named fields: the types of the fields are registered
/// in declared order, then each becomes a slot under its field's name.
pub fn derive_struct_named_fields<'a, R>(fields: &'a [Field<R>], name: &'a str) -> (plan: Plan<
    'a,
    R,
>)
    ensures
        plan@ == struct_plan(Style::Struct, fields@, name@),
{
    let len = fields.len();
    let expanded_type_ids = derive_register_field_types(0, fields);
    let mut expanded_build_type: Vec<BuildStep<'a>> = Vec::new();
    expanded_build_type.push(BuildStep::Open { kind: Kind::Struct, name, slots: len });
    let ghost open = seq![
        BuildStepView::Open { kind: Kind::Struct, name: name@, slots: len as nat },
    ];
    proof {
        assert(steps_view(expanded_build_type@) =~= open + field_steps(0, fields@).take(0));
    }
    let mut field_idx: usize = 0;
    while field_idx < len
        invariant
            len == fields.len(),
            field_idx <= len,
            steps_view(expanded_build_type@) == open + field_steps(0, fields@).take(
                field_idx as int,
            ),
        decreases len - field_idx,
    {
        let step = derive_field(0, field_idx, &fields[field_idx]);
        proof {
            let slots = field_steps(0, fields@);
            assert(step@ == slots[field_idx as int]);
            assert(steps_view(expanded_build_type@.push(step)) =~= steps_view(
                expanded_build_type@,
            ).push(step@));
            assert(open + slots.take(field_idx + 1) =~= (open + slots.take(
                field_idx as int,
            )).push(slots[field_idx as int]));
        }
        expanded_build_type.push(step);
        field_idx += 1;
    }
    proof {
        let slots = field_steps(0, fields@);
        assert(slots.take(field_idx as int) =~= slots);
        assert(steps_view(expanded_build_type@.push(BuildStep::Close)) =~= steps_view(
            expanded_build_type@,
        ).push(BuildStepView::Close));
        assert((open + slots).push(BuildStepView::Close) =~= open + slots + seq![
            BuildStepView::Close,
        ]);
    }
    expanded_build_type.push(BuildStep::Close);
    Plan { registrations: single_row(expanded_type_ids), build: expanded_build_type }
}

/// Plans a struct with unnamed fields: the types of the fields are
/// registered in declared order, then each becomes an unnamed slot.
pub fn derive_struct_tuple<'a, R>(fields: &'a [Field<R>], name: &'a str) -> (plan: Plan<'a, R>)
    ensures
        plan@ == struct_plan(Style::Tuple, fields@, name@),
{
    let len = fields.len();
    let expanded_type_ids = derive_register_field_types(0, fields);
    let mut expanded_build_type: Vec<BuildStep<'a>> = Vec::new();
    expanded_build_type.push(BuildStep::Open { kind: Kind::Tuple, name, slots: len });
    let ghost open = seq![
        BuildStepView::Open { kind: Kind::Tuple, name: name@, slots: len as nat },
    ];
    proof {
        assert(steps_view(expanded_build_type@) =~= open + element_steps(0, len as nat).take(0));
    }
    let mut element_idx: usize = 0;
    while element_idx < len
        invariant
            len == fields.len(),
            element_idx <= len,
            steps_view(expanded_build_type@) == open + element_steps(0, len as nat).take(
                element_idx as int,
            ),
        decreases len - element_idx,
    {
        let step = derive_element(0, element_idx);
        proof {
            let slots = element_steps(0, len as nat);
            assert(step@ == slots[element_idx as int]);
            assert(steps_view(expanded_build_type@.push(step)) =~= steps_view(
                expanded_build_type@,
            ).push(step@));
            assert(open + slots.take(element_idx + 1) =~= (open + slots.take(
                element_idx as int,
            )).push(slots[element_idx as int]));
        }
        expanded_build_type.push(step);
        element_idx += 1;
    }
    proof {
        let slots = element_steps(0, len as nat);
        assert(slots.take(element_idx as int) =~= slots);
        assert(steps_view(expanded_build_type@.push(BuildStep::Close)) =~= steps_view(
            expanded_build_type@,
        ).push(BuildStepView::Close));
        assert((open + slots).push(BuildStepView::Close) =~= open + slots + seq![
            BuildStepView::Close,
        ]);
    }
    expanded_build_type.push(BuildStep::Close);
    Plan { registrations: single_row(expanded_type_ids), build: expanded_build_type }
}

} // verus!

//! Plans for enums: the container and, in declared order, its variants.

use vstd::prelude::*;
use crate::plan::{
    element_steps,
    enum_plan,
    field_steps,
    registrations,
    registrations_view,
    steps_view,
    type_var,
    variant_steps,
    variants_steps,
    BuildStep,
    BuildStepView,
    Plan,
    Registration,
};
use crate::shape::{first_defect, Field, Kind, ShapeError, Style, Variant};
use crate::{
    derive_element,
    derive_field,
    derive_register_field_types,
    variant_field_type_variable,
};

verus! {

/// Plans the registration of an enum named `name` with `variants`: the field
/// types of every variant are registered, variant by variant in declared
/// order; then the enum is opened for its number of variants, each variant is
/// appended, and the enum is closed. The first variant whose style does not
/// admit its number of fields is an error.
pub fn derive_enum<'a, R>(variants: &'a [Variant<R>], name: &'a str) -> (plan: Result<
    Plan<'a, R>,
    ShapeError,
>)
    ensures
        match first_defect(variants@) {
            Some(error) => plan == Err::<Plan<'a, R>, ShapeError>(error),
            None => plan is Ok && plan->Ok_0@ == enum_plan(variants@, name@),
        },
{
    let len = variants.len();
    let ghost rows = enum_plan(variants@, name@).registrations;

    let mut expanded_type_ids: Vec<Vec<Registration<'a, R>>> = Vec::new();
    let mut variant_idx: usize = 0;
    proof {
        assert(variants@.take(0) =~= Seq::empty());
        assert(expanded_type_ids@.map_values(
            |row: Vec<Registration<'a, R>>| registrations_view(row@),
        ) =~= rows.take(0));
    }
    while variant_idx < len
        invariant
            len == variants.len(),
            variant_idx <= len,
            rows == enum_plan(variants@, name@).registrations,
            first_defect(variants@.take(variant_idx as int)) is None,
            expanded_type_ids@.map_values(
                |row: Vec<Registration<'a, R>>| registrations_view(row@),
            ) == rows.take(variant_idx as int),
        decreases len - variant_idx,
    {
        let variant = &variants[variant_idx];
        proof {
            assert(variants@.take(variant_idx + 1).drop_last() =~= variants@.take(
                variant_idx as int,
            ));
        }
        if !variant.style.allows(variant.fields.len()) {
            proof {
                lemma_first_defect_extends(variants@.take(variant_idx + 1), variants@);
            }
            return Err(ShapeError { style: variant.style, fields: variant.fields.len() });
        }
        let row = derive_register_field_types(variant_idx, variant.fields.as_slice());
        proof {
            assert(registrations_view(row@) == rows[variant_idx as int]);
            assert(expanded_type_ids@.push(row).map_values(
                |row: Vec<Registration<'a, R>>| registrations_view(row@),
            ) =~= expanded_type_ids@.map_values(
                |row: Vec<Registration<'a, R>>| registrations_view(row@),
            ).push(registrations_view(row@)));
            assert(rows.take(variant_idx + 1) =~= rows.take(variant_idx as int).push(
                rows[variant_idx as int],
            ));
        }
        expanded_type_ids.push(row);
        variant_idx += 1;
    }
    proof {
        assert(variants@.take(variant_idx as int) =~= variants@);
        assert(rows.take(variant_idx as int) =~= rows);
    }

    let mut expanded_build_type: Vec<BuildStep<'a>> = Vec::new();
    expanded_build_type.push(BuildStep::Open { kind: Kind::Enum, name, slots: len });
    let ghost open = seq![BuildStepView::Open { kind: Kind::Enum, name: name@, slots: len as nat }];
    proof {
        assert(variants@.take(0) =~= Seq::empty());
        assert(steps_view(expanded_build_type@) =~= open + variants_steps(variants@.take(0)));
    }

    let mut variant_idx: usize = 0;
    while variant_idx < len
        invariant
            len == variants.len(),
            variant_idx <= len,
            first_defect(variants@) is None,
            steps_view(expanded_build_type@) == open + variants_steps(
                variants@.take(variant_idx as int),
            ),
        decreases len - variant_idx,
    {
        let variant = &variants[variant_idx];
        let variant_name = variant.name.as_str();
        let ghost before = expanded_build_type@;
        let ghost appended = variant_steps(variant_idx as int, *variant);
        match variant.style {
            Style::Struct => {
                let mut expanded_build_variant = derive_struct_variant(
                    variant_name,
                    variant_idx,
                    variant.fields.as_slice(),
                );
                let ghost steps = expanded_build_variant@;
                expanded_build_type.append(&mut expanded_build_variant);
                proof {
                    assert(steps_view(before + steps) =~= steps_view(before) + steps_view(steps));
                }
            },
            Style::Newtype => {
                let step = derive_newtype_variant(variant_name, variant_idx);
                expanded_build_type.push(step);
                proof {
                    assert(steps_view(before.push(step)) =~= steps_view(before) + seq![step@]);
                }
            },
            Style::Tuple => {
                let mut expanded_build_variant = derive_tuple_variant(
                    variant_name,
                    variant_idx,
                    variant.fields.as_slice(),
                );
                let ghost steps = expanded_build_variant@;
                expanded_build_type.append(&mut expanded_build_variant);
                proof {
                    assert(steps_view(before + steps) =~= steps_view(before) + steps_view(steps));
                }
            },
            Style::Unit => {
                let step = derive_unit_variant(variant_name);
                expanded_build_type.push(step);
                proof {
                    assert(steps_view(before.push(step)) =~= steps_view(before) + seq![step@]);
                }
            },
        }
        proof {
            let sofar = variants@.take(variant_idx as int);
            let next = variants@.take(variant_idx + 1);
            assert(next.drop_last() =~= sofar);
            assert(next.last() == *variant);
            assert(steps_view(expanded_build_type@) == steps_view(before) + appended);
            assert(open + variants_steps(next) =~= open + variants_steps(sofar) + appended);
        }
        variant_idx += 1;
    }
    proof {
        let all = variants_steps(variants@);
        assert(variants@.take(variant_idx as int) =~= variants@);
        assert(steps_view(expanded_build_type@.push(BuildStep::Close)) =~= steps_view(
            expanded_build_type@,
        ).push(BuildStepView::Close));
        assert((open + all).push(BuildStepView::Close) =~= open + all + seq![
            BuildStepView::Close,
        ]);
    }
    expanded_build_type.push(BuildStep::Close);

    Ok(Plan { registrations: expanded_type_ids, build: expanded_build_type })
}

/// The step that appends the variant `variant_name`, which has no slots.
pub fn derive_unit_variant<'a>(variant_name: &'a str) -> (step: BuildStep<'a>)
    ensures
        step@ == (BuildStepView::UnitVariant { name: variant_name@ }),
{
    BuildStep::UnitVariant { name: variant_name }
}

/// The step that appends the variant `variant_name`, which wraps the type of
/// its one field.
pub fn derive_newtype_variant<'a>(variant_name: &'a str, variant_idx: usize) -> (step: BuildStep<
    'a,
>)
    ensures
        step@ == (BuildStepView::NewtypeVariant {
            name: variant_name@,
            type_id: type_var(variant_idx as int, 0),
        }),
{
    let field_type = variant_field_type_variable(variant_idx, 0);
    BuildStep::NewtypeVariant { name: variant_name, type_id: field_type }
}

/// The steps that append the variant `variant_name` with named `fields`: the
/// variant is opened for their number, each field becomes a slot under its
/// name, in declared order, and the variant is closed.
pub fn derive_struct_variant<'a, R>(
    variant_name: &'a str,
    variant_idx: usize,
    fields: &'a [Field<R>],
) -> (expanded: Vec<BuildStep<'a>>)
    ensures
        steps_view(expanded@) == seq![
            BuildStepView::StructVariant { name: variant_name@, slots: fields@.len() },
        ] + field_steps(variant_idx as int, fields@) + seq![BuildStepView::Close],
{
    let fields_len = fields.len();
    let mut expanded: Vec<BuildStep<'a>> = Vec::new();
    expanded.push(BuildStep::StructVariant { name: variant_name, slots: fields_len });
    let ghost open = seq![
        BuildStepView::StructVariant { name: variant_name@, slots: fields_len as nat },
    ];
    let ghost slots = field_steps(variant_idx as int, fields@);
    proof {
        assert(steps_view(expanded@) =~= open + slots.take(0));
    }
    let mut field_idx: usize = 0;
    while field_idx < fields_len
        invariant
            fields_len == fields.len(),
            field_idx <= fields_len,
            slots == field_steps(variant_idx as int, fields@),
            steps_view(expanded@) == open + slots.take(field_idx as int),
        decreases fields_len - field_idx,
    {
        let step = derive_field(variant_idx, field_idx, &fields[field_idx]);
        proof {
            assert(step@ == slots[field_idx as int]);
            assert(steps_view(expanded@.push(step)) =~= steps_view(expanded@).push(step@));
            assert(open + slots.take(field_idx + 1) =~= (open + slots.take(
                field_idx as int,
            )).push(slots[field_idx as int]));
        }
        expanded.push(step);
        field_idx += 1;
    }
    proof {
        assert(slots.take(field_idx as int) =~= slots);
        assert(steps_view(expanded@.push(BuildStep::Close)) =~= steps_view(expanded@).push(
            BuildStepView::Close,
        ));
        assert((open + slots).push(BuildStepView::Close) =~= open + slots + seq![
            BuildStepView::Close,
        ]);
    }
    expanded.push(BuildStep::Close);
    expanded
}

/// The steps that append the variant `variant_name` with unnamed `fields`:
/// the variant is opened for their number, each field becomes an unnamed
/// slot, in declared order, and the variant is closed.
pub fn derive_tuple_variant<'a, R>(
    variant_name: &'a str,
    variant_idx: usize,
    fields: &'a [Field<R>],
) -> (expanded: Vec<BuildStep<'a>>)
    ensures
        steps_view(expanded@) == seq![
            BuildStepView::TupleVariant { name: variant_name@, slots: fields@.len() },
        ] + element_steps(variant_idx as int, fields@.len()) + seq![BuildStepView::Close],
{
    let fields_len = fields.len();
    let mut expanded: Vec<BuildStep<'a>> = Vec::new();
    expanded.push(BuildStep::TupleVariant { name: variant_name, slots: fields_len });
    let ghost open = seq![
        BuildStepView::TupleVariant { name: variant_name@, slots: fields_len as nat },
    ];
    let ghost slots = element_steps(variant_idx as int, fields_len as nat);
    proof {
        assert(steps_view(expanded@) =~= open + slots.take(0));
    }
    let mut field_idx: usize = 0;
    while field_idx < fields_len
        invariant
            fields_len == fields.len(),
            field_idx <= fields_len,
            slots == element_steps(variant_idx as int, fields_len as nat),
            steps_view(expanded@) == open + slots.take(field_idx as int),
        decreases fields_len - field_idx,
    {
        let step = derive_element(variant_idx, field_idx);
        proof {
            assert(step@ == slots[field_idx as int]);
            assert(steps_view(expanded@.push(step)) =~= steps_view(expanded@).push(step@));
            assert(open + slots.take(field_idx + 1) =~= (open + slots.take(
                field_idx as int,
            )).push(slots[field_idx as int]));
        }
        expanded.push(step);
        field_idx += 1;
    }
    proof {
        assert(slots.take(field_idx as int) =~= slots);
        assert(steps_view(expanded@.push(BuildStep::Close)) =~= steps_view(expanded@).push(
            BuildStepView::Close,
        ));
        assert((open + slots).push(BuildStepView::Close) =~= open + slots + seq![
            BuildStepView::Close,
        ]);
    }
    expanded.push(BuildStep::Close);
    expanded
}

/// A defect among the first variants is the first defect among all.
pub proof fn lemma_first_defect_extends<R>(prefix: Seq<Variant<R>>, variants: Seq<Variant<R>>)
    requires
        prefix.is_prefix_of(variants),
        first_defect(prefix) is Some,
    ensures
        first_defect(variants) == first_defect(prefix),
    decreases variants.len(),
{
    if variants.len() > prefix.len() {
        assert(prefix.is_prefix_of(variants.drop_last()));
        lemma_first_defect_extends(prefix, variants.drop_last());
    } else {
        assert(prefix =~= variants);
    }
}

} // verus!

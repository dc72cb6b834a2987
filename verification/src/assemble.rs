//! Carrying out the build steps of a plan on a builder.

use vstd::prelude::*;
use crate::builder::{BuilderView, TypeBuilder};
use crate::descriptor::{DescriptorView, TypeDescriptor, TypeId};
use crate::plan::{steps_view, BuildStep, BuildStepView, TypeVar};

verus! {

/// The rows of type ids, as sequences.
pub open spec fn rows_view(rows: Seq<Vec<TypeId>>) -> Seq<Seq<TypeId>> {
    rows.map_values(|row: Vec<TypeId>| row@)
}

/// The type id that `type_ids` holds for `var`: row `variant_idx`, place
/// `field_idx`.
pub open spec fn bound(type_ids: Seq<Seq<TypeId>>, var: TypeVar) -> Option<TypeId> {
    if var.variant_idx < type_ids.len() && var.field_idx < type_ids[var.variant_idx as int].len() {
        Some(type_ids[var.variant_idx as int][var.field_idx as int])
    } else {
        None
    }
}

/// The stage that `step` takes `builder` to, where the variables stand for
/// `type_ids`; `None` where the stage does not admit the step or the step
/// names a variable that is not bound.
pub open spec fn apply(builder: BuilderView, step: BuildStepView, type_ids: Seq<Seq<TypeId>>)
    -> Option<BuilderView> {
    match step {
        BuildStepView::Open { kind, name, slots } => builder.open(kind, name, slots),
        BuildStepView::Field { name, type_id } => match bound(type_ids, type_id) {
            Some(id) => builder.field(name, id),
            None => None,
        },
        BuildStepView::Element { type_id } => match bound(type_ids, type_id) {
            Some(id) => builder.element(id),
            None => None,
        },
        BuildStepView::UnitVariant { name } => builder.unit_variant(name),
        BuildStepView::NewtypeVariant { name, type_id } => match bound(type_ids, type_id) {
            Some(id) => builder.newtype_variant(name, id),
            None => None,
        },
        BuildStepView::StructVariant { name, slots } => builder.struct_variant(name, slots),
        BuildStepView::TupleVariant { name, slots } => builder.tuple_variant(name, slots),
        BuildStepView::Close => builder.close(),
    }
}

/// The stage that `steps`, taken in order, take the stage `from` to.
pub open spec fn replay(steps: Seq<BuildStepView>, type_ids: Seq<Seq<TypeId>>, from: BuilderView)
    -> Option<BuilderView>
    decreases steps.len(),
{
    if steps.len() == 0 {
        Some(from)
    } else {
        match replay(steps.drop_last(), type_ids, from) {
            Some(builder) => apply(builder, steps.last(), type_ids),
            None => None,
        }
    }
}

/// The descriptor that `steps` assemble on an empty builder, if they keep to
/// the builder's protocol and end with the descriptor finished.
pub open spec fn assembled(steps: Seq<BuildStepView>, type_ids: Seq<Seq<TypeId>>) -> Option<
    DescriptorView,
> {
    match replay(steps, type_ids, BuilderView::Empty) {
        Some(BuilderView::Closed(descriptor)) => Some(descriptor),
        _ => None,
    }
}

/// A step takes a well-formed stage to a well-formed stage.
pub proof fn law_step_keeps_well_formed(
    builder: BuilderView,
    step: BuildStepView,
    type_ids: Seq<Seq<TypeId>>,
)
    requires
        builder.well_formed(),
        apply(builder, step, type_ids) is Some,
    ensures
        apply(builder, step, type_ids)->Some_0.well_formed(),
{
}

/// Steps take a well-formed stage to a well-formed stage.
pub proof fn law_steps_keep_well_formed(
    steps: Seq<BuildStepView>,
    type_ids: Seq<Seq<TypeId>>,
    from: BuilderView,
)
    requires
        from.well_formed(),
        replay(steps, type_ids, from) is Some,
    ensures
        replay(steps, type_ids, from)->Some_0.well_formed(),
    decreases steps.len(),
{
    if steps.len() > 0 {
        law_steps_keep_well_formed(steps.drop_last(), type_ids, from);
        law_step_keeps_well_formed(
            replay(steps.drop_last(), type_ids, from)->Some_0,
            steps.last(),
            type_ids,
        );
    }
}

/// Whatever steps assemble is a well-formed descriptor: each record has a
/// number of slots that its style admits, named exactly in a struct.
pub proof fn law_assembled_is_well_formed(steps: Seq<BuildStepView>, type_ids: Seq<Seq<TypeId>>)
    requires
        assembled(steps, type_ids) is Some,
    ensures
        assembled(steps, type_ids)->Some_0.well_formed(),
{
    law_steps_keep_well_formed(steps, type_ids, BuilderView::Empty);
}

/// Replaying one step is applying it.
pub proof fn lemma_replay_one(step: BuildStepView, type_ids: Seq<Seq<TypeId>>, from: BuilderView)
    ensures
        replay(seq![step], type_ids, from) == apply(from, step, type_ids),
{
    reveal_with_fuel(replay, 2);
    assert(seq![step].drop_last() =~= Seq::empty());
}

/// Steps that can be replayed to the end can be replayed up to any point.
pub proof fn lemma_replay_prefix(
    steps: Seq<BuildStepView>,
    type_ids: Seq<Seq<TypeId>>,
    from: BuilderView,
    n: int,
)
    requires
        replay(steps, type_ids, from) is Some,
        0 <= n <= steps.len(),
    ensures
        replay(steps.take(n), type_ids, from) is Some,
    decreases steps.len(),
{
    if n == steps.len() {
        assert(steps.take(n) =~= steps);
    } else {
        assert(steps.drop_last().take(n) =~= steps.take(n));
        lemma_replay_prefix(steps.drop_last(), type_ids, from, n);
    }
}

/// Replaying two lists of steps one after the other is replaying their
/// concatenation.
pub proof fn lemma_replay_concat(
    first: Seq<BuildStepView>,
    second: Seq<BuildStepView>,
    type_ids: Seq<Seq<TypeId>>,
    from: BuilderView,
)
    ensures
        replay(first + second, type_ids, from) == match replay(first, type_ids, from) {
            Some(builder) => replay(second, type_ids, builder),
            None => None,
        },
    decreases second.len(),
{
    if second.len() == 0 {
        assert(first + second =~= first);
    } else {
        assert((first + second).drop_last() =~= first + second.drop_last());
        assert((first + second).last() == second.last());
        lemma_replay_concat(first, second.drop_last(), type_ids, from);
    }
}

/// The type id bound to `var`.
fn type_id_of(type_ids: &Vec<Vec<TypeId>>, var: TypeVar) -> (id: TypeId)
    requires
        bound(rows_view(type_ids@), var) is Some,
    ensures
        Some(id) == bound(rows_view(type_ids@), var),
{
    type_ids[var.variant_idx][var.field_idx]
}

/// Carries out one step on `builder`.
pub fn advance(builder: TypeBuilder, step: &BuildStep, type_ids: &Vec<Vec<TypeId>>) -> (next:
    TypeBuilder)
    requires
        apply(builder@, step@, rows_view(type_ids@)) is Some,
    ensures
        Some(next@) == apply(builder@, step@, rows_view(type_ids@)),
{
    match *step {
        BuildStep::Open { kind, name, slots } => builder.open(kind, name, slots),
        BuildStep::Field { name, type_id } => builder.field(name, type_id_of(type_ids, type_id)),
        BuildStep::Element { type_id } => builder.element(type_id_of(type_ids, type_id)),
        BuildStep::UnitVariant { name } => builder.unit_variant(name),
        BuildStep::NewtypeVariant { name, type_id } => builder.newtype_variant(
            name,
            type_id_of(type_ids, type_id),
        ),
        BuildStep::StructVariant { name, slots } => builder.struct_variant(name, slots),
        BuildStep::TupleVariant { name, slots } => builder.tuple_variant(name, slots),
        BuildStep::Close => builder.close(),
    }
}

/// Assembles the descriptor that `steps` describe, with the type ids in
/// `type_ids` for the variables: the steps are carried out in order on an
/// empty builder, and the finished descriptor is handed out.
pub fn assemble(steps: &[BuildStep], type_ids: &Vec<Vec<TypeId>>) -> (descriptor: TypeDescriptor)
    requires
        assembled(steps_view(steps@), rows_view(type_ids@)) is Some,
    ensures
        Some(descriptor@) == assembled(steps_view(steps@), rows_view(type_ids@)),
        descriptor@.well_formed(),
{
    proof {
        law_assembled_is_well_formed(steps_view(steps@), rows_view(type_ids@));
    }
    let ghost planned = steps_view(steps@);
    let ghost ids = rows_view(type_ids@);
    let mut builder = TypeBuilder::new();
    let mut done: usize = 0;
    while done < steps.len()
        invariant
            done <= steps.len(),
            planned == steps_view(steps@),
            ids == rows_view(type_ids@),
            replay(planned, ids, BuilderView::Empty) is Some,
            replay(planned.take(done as int), ids, BuilderView::Empty) == Some(builder@),
        decreases steps.len() - done,
    {
        proof {
            lemma_replay_prefix(planned, ids, BuilderView::Empty, done + 1);
            assert(planned.take(done + 1).drop_last() =~= planned.take(done as int));
            assert(planned.take(done + 1).last() == steps@[done as int]@);
        }
        builder = advance(builder, &steps[done], type_ids);
        done += 1;
    }
    proof {
        assert(planned.take(done as int) =~= planned);
    }
    builder.finish()
}

} // verus!

//! What the descriptor of a shape is, and that the plan of the shape
//! assembles exactly that descriptor.

use vstd::prelude::*;
use crate::assemble::{
    apply,
    assembled,
    bound,
    lemma_replay_concat,
    lemma_replay_one,
    replay,
};
use crate::builder::{BuilderView, PartialView};
use crate::descriptor::{DescriptorView, RecordView, SlotView, TypeId};
use crate::plan::{
    enum_plan,
    plan_of,
    slot_steps,
    struct_plan,
    type_var,
    variant_steps,
    variants_steps,
    BuildStepView,
};
use crate::shape::{first_defect, Data, Field, Kind, Style, TypeShape, Variant};

verus! {

/// One slot for each of `fields`, in declared order: slot `i` holds
/// `type_ids[i]`, under the field's name if `style` names its slots.
pub open spec fn slots_of<R>(style: Style, fields: Seq<Field<R>>, type_ids: Seq<TypeId>) -> Seq<
    SlotView,
> {
    Seq::new(
        fields.len(),
        |i: int|
            SlotView {
                name: if style.named() {
                    Some(fields[i].name@)
                } else {
                    None
                },
                type_id: type_ids[i],
            },
    )
}

/// The record of a struct or variant of `style` named `name` with `fields`,
/// whose types got `type_ids`.
pub open spec fn record_of<R>(
    style: Style,
    name: Seq<char>,
    fields: Seq<Field<R>>,
    type_ids: Seq<TypeId>,
) -> RecordView {
    RecordView { style, name, slots: slots_of(style, fields, type_ids) }
}

/// One record for each of `variants`, in declared order; the types of the
/// fields of variant `j` got `type_ids[j]`.
pub open spec fn variant_records<R>(variants: Seq<Variant<R>>, type_ids: Seq<Seq<TypeId>>) -> Seq<
    RecordView,
> {
    Seq::new(
        variants.len(),
        |j: int|
            record_of(variants[j].style, variants[j].name@, variants[j].fields@, type_ids[j]),
    )
}

/// The descriptor of a type of `shape`. `type_ids` holds the ids that the
/// types of its fields got: one row for a struct, one row per variant for an
/// enum.
pub open spec fn descriptor_of<R>(shape: TypeShape<R>, type_ids: Seq<Seq<TypeId>>)
    -> DescriptorView {
    match shape.data {
        Data::Struct(style, fields) => DescriptorView::Record(
            record_of(style, shape.name@, fields@, type_ids[0]),
        ),
        Data::Enum(variants) => DescriptorView::Enum {
            name: shape.name@,
            variants: variant_records(variants@, type_ids),
        },
    }
}

/// Whether `type_ids` has one id for each field of each of `variants`.
pub open spec fn fit_variants<R>(variants: Seq<Variant<R>>, type_ids: Seq<Seq<TypeId>>) -> bool {
    &&& type_ids.len() == variants.len()
    &&& forall|j: int|
        0 <= j < variants.len() ==> (#[trigger] type_ids[j]).len() == variants[j].fields@.len()
}

/// Whether `type_ids` has one id for each field of `shape`.
pub open spec fn fits<R>(shape: TypeShape<R>, type_ids: Seq<Seq<TypeId>>) -> bool {
    match shape.data {
        Data::Struct(_, fields) => type_ids.len() == 1 && type_ids[0].len() == fields@.len(),
        Data::Enum(variants) => fit_variants(variants@, type_ids),
    }
}

/// No defect is found exactly where every variant's style admits its number
/// of fields.
pub proof fn lemma_no_defect<R>(variants: Seq<Variant<R>>)
    ensures
        first_defect(variants) is None <==> forall|j: int|
            0 <= j < variants.len() ==> (#[trigger] variants[j]).style.admits(
                variants[j].fields@.len(),
            ),
    decreases variants.len(),
{
    if variants.len() > 0 {
        lemma_no_defect(variants.drop_last());
        assert forall|j: int| 0 <= j < variants.len() - 1 implies variants.drop_last()[j]
            == variants[j] by {}
        if first_defect(variants) is None {
            assert forall|j: int| 0 <= j < variants.len() implies (#[trigger] variants[j]).style.admits(
                variants[j].fields@.len(),
            ) by {
                if j < variants.len() - 1 {
                    assert(variants.drop_last()[j] == variants[j]);
                }
            }
        }
    }
}

/// The open record of `style` named `name` with the first `count` slots of
/// `fields`.
spec fn filled<R>(
    style: Style,
    name: Seq<char>,
    fields: Seq<Field<R>>,
    type_ids: Seq<TypeId>,
    count: int,
) -> PartialView {
    PartialView {
        record: RecordView { style, name, slots: slots_of(style, fields, type_ids).take(count) },
        expected: fields.len(),
    }
}

/// The slot steps of a record fill the open record slot by slot.
proof fn lemma_slots<R>(
    style: Style,
    name: Seq<char>,
    variant_idx: int,
    fields: Seq<Field<R>>,
    type_ids: Seq<Seq<TypeId>>,
    from: BuilderView,
    count: int,
)
    requires
        0 <= count <= fields.len() <= usize::MAX,
        0 <= variant_idx <= usize::MAX,
        variant_idx < type_ids.len(),
        type_ids[variant_idx].len() == fields.len(),
        from.partial() == Some(PartialView::empty(style, name, fields.len())),
    ensures
        replay(slot_steps(style, variant_idx, fields).take(count), type_ids, from) == Some(
            from.with_partial(filled(style, name, fields, type_ids[variant_idx], count)),
        ),
    decreases count,
{
    let steps = slot_steps(style, variant_idx, fields);
    let row = type_ids[variant_idx];
    let slots = slots_of(style, fields, row);
    if count == 0 {
        assert(steps.take(0) =~= Seq::empty());
        assert(slots.take(0) =~= Seq::empty());
        assert(from.with_partial(filled(style, name, fields, row, 0)) == from);
    } else {
        lemma_slots(style, name, variant_idx, fields, type_ids, from, count - 1);
        let before = filled(style, name, fields, row, count - 1);
        assert(steps.take(count).drop_last() =~= steps.take(count - 1));
        assert(steps.take(count).last() == steps[count - 1]);
        let var = type_var(variant_idx, count - 1);
        assert(var.variant_idx == variant_idx && var.field_idx == count - 1);
        assert(bound(type_ids, var) == Some(row[count - 1]));
        let slot = slots[count - 1];
        assert(before.takes(slot));
        assert(before.push(slot).record.slots =~= slots.take(count));
        assert(before.push(slot) == filled(style, name, fields, row, count));
        assert(apply(from.with_partial(before), steps[count - 1], type_ids) == Some(
            from.with_partial(filled(style, name, fields, row, count)),
        ));
    }
}

/// The steps of one variant append the variant's record to the open enum.
proof fn lemma_variant<R>(
    variant_idx: int,
    variant: Variant<R>,
    type_ids: Seq<Seq<TypeId>>,
    name: Seq<char>,
    expected: nat,
    variants: Seq<RecordView>,
)
    requires
        0 <= variant_idx <= usize::MAX,
        variant_idx < type_ids.len(),
        type_ids[variant_idx].len() == variant.fields@.len(),
        variant.style.admits(variant.fields@.len()),
        variants.len() < expected,
    ensures
        replay(
            variant_steps(variant_idx, variant),
            type_ids,
            BuilderView::Enum { name, expected, variants, open: None },
        ) == Some(
            BuilderView::Enum {
                name,
                expected,
                variants: variants.push(
                    record_of(variant.style, variant.name@, variant.fields@, type_ids[variant_idx]),
                ),
                open: None,
            },
        ),
{
    let from = BuilderView::Enum { name, expected, variants, open: None };
    let steps = variant_steps(variant_idx, variant);
    let fields = variant.fields@;
    let row = type_ids[variant_idx];
    let record = record_of(variant.style, variant.name@, fields, row);
    match variant.style {
        Style::Unit => {
            lemma_replay_one(steps[0], type_ids, from);
            assert(steps =~= seq![steps[0]]);
            assert(record.slots =~= Seq::empty());
        },
        Style::Newtype => {
            lemma_replay_one(steps[0], type_ids, from);
            assert(steps =~= seq![steps[0]]);
            let var = type_var(variant_idx, 0);
            assert(var.variant_idx == variant_idx && var.field_idx == 0);
            assert(bound(type_ids, var) == Some(row[0]));
            assert(record.slots =~= seq![SlotView { name: None, type_id: row[0] }]);
        },
        Style::Struct | Style::Tuple => {
            let open = if variant.style == Style::Struct {
                BuildStepView::StructVariant { name: variant.name@, slots: fields.len() }
            } else {
                BuildStepView::TupleVariant { name: variant.name@, slots: fields.len() }
            };
            let slots = slot_steps(variant.style, variant_idx, fields);
            assert(steps == seq![open] + slots + seq![BuildStepView::Close]);
            let opened = BuilderView::Enum {
                name,
                expected,
                variants,
                open: Some(PartialView::empty(variant.style, variant.name@, fields.len())),
            };
            lemma_replay_one(open, type_ids, from);
            assert(replay(seq![open], type_ids, from) == Some(opened));
            assert(fields.len() == variant.fields.len());
            lemma_slots(
                variant.style,
                variant.name@,
                variant_idx,
                fields,
                type_ids,
                opened,
                fields.len() as int,
            );
            assert(slots.take(fields.len() as int) =~= slots);
            let full = filled(variant.style, variant.name@, fields, row, fields.len() as int);
            assert(full.record.slots =~= record.slots);
            assert(full.record == record);
            lemma_replay_concat(seq![open], slots, type_ids, from);
            assert(replay(seq![open] + slots, type_ids, from) == Some(opened.with_partial(full)));
            lemma_replay_one(BuildStepView::Close, type_ids, opened.with_partial(full));
            lemma_replay_concat(seq![open] + slots, seq![BuildStepView::Close], type_ids, from);
        },
    }
}

/// The steps of the first `count` variants append their records, in declared
/// order, to an enum that was opened for all of them.
proof fn lemma_variants<R>(
    variants: Seq<Variant<R>>,
    type_ids: Seq<Seq<TypeId>>,
    name: Seq<char>,
    count: int,
)
    requires
        0 <= count <= variants.len() <= usize::MAX,
        fit_variants(variants, type_ids),
        first_defect(variants) is None,
    ensures
        replay(
            variants_steps(variants.take(count)),
            type_ids,
            BuilderView::Enum {
                name,
                expected: variants.len(),
                variants: Seq::empty(),
                open: None,
            },
        ) == Some(
            BuilderView::Enum {
                name,
                expected: variants.len(),
                variants: variant_records(variants, type_ids).take(count),
                open: None,
            },
        ),
    decreases count,
{
    let from = BuilderView::Enum {
        name,
        expected: variants.len(),
        variants: Seq::empty(),
        open: None,
    };
    let records = variant_records(variants, type_ids);
    if count == 0 {
        assert(variants.take(0) =~= Seq::empty());
        assert(records.take(0) =~= Seq::empty());
    } else {
        lemma_variants(variants, type_ids, name, count - 1);
        lemma_no_defect(variants);
        let sofar = variants.take(count - 1);
        let next = variants.take(count);
        assert(next.drop_last() =~= sofar);
        assert(next.last() == variants[count - 1]);
        assert(variants_steps(next) == variants_steps(sofar) + variant_steps(
            count - 1,
            variants[count - 1],
        ));
        lemma_replay_concat(
            variants_steps(sofar),
            variant_steps(count - 1, variants[count - 1]),
            type_ids,
            from,
        );
        lemma_variant(
            count - 1,
            variants[count - 1],
            type_ids,
            name,
            variants.len(),
            records.take(count - 1),
        );
        assert(records.take(count - 1).push(records[count - 1]) =~= records.take(count));
    }
}

/// The build steps planned for a struct assemble the struct's descriptor.
pub proof fn lemma_struct_plan_assembles<R>(
    style: Style,
    fields: Seq<Field<R>>,
    name: Seq<char>,
    type_ids: Seq<Seq<TypeId>>,
)
    requires
        fields.len() <= usize::MAX,
        style.admits(fields.len()),
        type_ids.len() == 1,
        type_ids[0].len() == fields.len(),
    ensures
        assembled(struct_plan(style, fields, name).build, type_ids) == Some(
            DescriptorView::Record(record_of(style, name, fields, type_ids[0])),
        ),
{
    let open = BuildStepView::Open { kind: style.kind(), name, slots: fields.len() };
    let slots = slot_steps(style, 0, fields);
    let opened = BuilderView::Record(PartialView::empty(style, name, fields.len()));
    assert(style.kind().style() == Some(style));
    lemma_replay_one(open, type_ids, BuilderView::Empty);
    assert(replay(seq![open], type_ids, BuilderView::Empty) == Some(opened));
    lemma_slots(style, name, 0, fields, type_ids, opened, fields.len() as int);
    assert(slots.take(fields.len() as int) =~= slots);
    let full = filled(style, name, fields, type_ids[0], fields.len() as int);
    assert(full.record.slots =~= slots_of(style, fields, type_ids[0]));
    assert(full.record == record_of(style, name, fields, type_ids[0]));
    lemma_replay_concat(seq![open], slots, type_ids, BuilderView::Empty);
    lemma_replay_one(BuildStepView::Close, type_ids, opened.with_partial(full));
    lemma_replay_concat(
        seq![open] + slots,
        seq![BuildStepView::Close],
        type_ids,
        BuilderView::Empty,
    );
}

/// The build steps planned for an enum assemble the enum's descriptor.
pub proof fn lemma_enum_plan_assembles<R>(
    variants: Seq<Variant<R>>,
    name: Seq<char>,
    type_ids: Seq<Seq<TypeId>>,
)
    requires
        variants.len() <= usize::MAX,
        first_defect(variants) is None,
        fit_variants(variants, type_ids),
    ensures
        assembled(enum_plan(variants, name).build, type_ids) == Some(
            DescriptorView::Enum { name, variants: variant_records(variants, type_ids) },
        ),
{
    let open = BuildStepView::Open { kind: Kind::Enum, name, slots: variants.len() };
    let steps = variants_steps(variants);
    let opened = BuilderView::Enum {
        name,
        expected: variants.len(),
        variants: Seq::empty(),
        open: None,
    };
    let records = variant_records(variants, type_ids);
    lemma_replay_one(open, type_ids, BuilderView::Empty);
    assert(replay(seq![open], type_ids, BuilderView::Empty) == Some(opened));
    lemma_variants(variants, type_ids, name, variants.len() as int);
    assert(variants.take(variants.len() as int) =~= variants);
    assert(records.take(variants.len() as int) =~= records);
    lemma_replay_concat(seq![open], steps, type_ids, BuilderView::Empty);
    lemma_replay_one(
        BuildStepView::Close,
        type_ids,
        BuilderView::Enum { name, expected: variants.len(), variants: records, open: None },
    );
    lemma_replay_concat(
        seq![open] + steps,
        seq![BuildStepView::Close],
        type_ids,
        BuilderView::Empty,
    );
}

/// The build steps planned for a shape without defect keep to the builder's
/// protocol and assemble the descriptor of the shape, whatever ids the types
/// of its fields got.
pub proof fn lemma_plan_assembles<R>(shape: TypeShape<R>, type_ids: Seq<Seq<TypeId>>)
    requires
        shape.defect() is None,
        fits(shape, type_ids),
    ensures
        assembled(plan_of(shape).build, type_ids) == Some(descriptor_of(shape, type_ids)),
{
    match shape.data {
        Data::Struct(style, fields) => {
            assert(fields@.len() == fields.len());
            lemma_struct_plan_assembles(style, fields@, shape.name@, type_ids);
        },
        Data::Enum(variants) => {
            assert(variants@.len() == variants.len());
            lemma_enum_plan_assembles(variants@, shape.name@, type_ids);
        },
    }
}

} // verus!

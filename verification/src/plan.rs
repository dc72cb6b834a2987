//! The plan of one registration: which field types are registered first, in
//! which order, and the builder steps that then assemble the descriptor from
//! the resulting type ids.

use vstd::prelude::*;
use crate::shape::{Data, Field, Kind, Style, TypeShape, Variant};

verus! {

/// The variable that holds the type id of one field: field `field_idx` of
/// variant `variant_idx`. The fields of a struct count as those of variant 0.
#[derive(Clone, Copy, Debug, PartialEq, Eq, Hash, Structural)]
pub struct TypeVar {
    pub variant_idx: usize,
    pub field_idx: usize,
}

/// The variable of field `field_idx` of variant `variant_idx`.
pub open spec fn type_var(variant_idx: int, field_idx: int) -> TypeVar {
    TypeVar { variant_idx: variant_idx as usize, field_idx: field_idx as usize }
}

/// One registration of a field's type: the type `ty` is registered, and the
/// id it gets is bound to `type_id`.
#[derive(Debug, PartialEq, Eq)]
pub struct Registration<'a, R> {
    pub type_id: TypeVar,
    pub ty: &'a R,
}

/// The mathematical value of a [`Registration`].
pub struct RegistrationView<R> {
    pub type_id: TypeVar,
    pub ty: R,
}

impl<'a, R> View for Registration<'a, R> {
    type V = RegistrationView<R>;

    open spec fn view(&self) -> RegistrationView<R> {
        RegistrationView { type_id: self.type_id, ty: *self.ty }
    }
}

/// One step of assembling a descriptor. A step that takes a type refers to it
/// by the variable that an earlier registration has bound.
#[derive(Clone, Copy, Debug, PartialEq, Eq)]
pub enum BuildStep<'a> {
    /// Begin the descriptor of a type of `kind` with `slots` slots (for an
    /// enum: variants).
    Open { kind: Kind, name: &'a str, slots: usize },
    /// A named slot of the open struct or struct variant.
    Field { name: &'a str, type_id: TypeVar },
    /// An unnamed slot of the open newtype, tuple or tuple variant.
    Element { type_id: TypeVar },
    /// A variant without slots.
    UnitVariant { name: &'a str },
    /// A variant that wraps one type.
    NewtypeVariant { name: &'a str, type_id: TypeVar },
    /// Begin a variant with `slots` named slots.
    StructVariant { name: &'a str, slots: usize },
    /// Begin a variant with `slots` unnamed slots.
    TupleVariant { name: &'a str, slots: usize },
    /// Close what was opened last.
    Close,
}

/// The mathematical value of a [`BuildStep`].
pub enum BuildStepView {
    Open { kind: Kind, name: Seq<char>, slots: nat },
    Field { name: Seq<char>, type_id: TypeVar },
    Element { type_id: TypeVar },
    UnitVariant { name: Seq<char> },
    NewtypeVariant { name: Seq<char>, type_id: TypeVar },
    StructVariant { name: Seq<char>, slots: nat },
    TupleVariant { name: Seq<char>, slots: nat },
    Close,
}

impl<'a> View for BuildStep<'a> {
    type V = BuildStepView;

    open spec fn view(&self) -> BuildStepView {
        match *self {
            BuildStep::Open { kind, name, slots } => BuildStepView::Open {
                kind,
                name: name@,
                slots: slots as nat,
            },
            BuildStep::Field { name, type_id } => BuildStepView::Field { name: name@, type_id },
            BuildStep::Element { type_id } => BuildStepView::Element { type_id },
            BuildStep::UnitVariant { name } => BuildStepView::UnitVariant { name: name@ },
            BuildStep::NewtypeVariant { name, type_id } => BuildStepView::NewtypeVariant {
                name: name@,
                type_id,
            },
            BuildStep::StructVariant { name, slots } => BuildStepView::StructVariant {
                name: name@,
                slots: slots as nat,
            },
            BuildStep::TupleVariant { name, slots } => BuildStepView::TupleVariant {
                name: name@,
                slots: slots as nat,
            },
            BuildStep::Close => BuildStepView::Close,
        }
    }
}

/// The values of a list of registrations.
pub open spec fn registrations_view<'a, R>(row: Seq<Registration<'a, R>>) -> Seq<
    RegistrationView<R>,
> {
    row.map_values(|registration: Registration<'a, R>| registration@)
}

/// The values of a list of steps.
pub open spec fn steps_view<'a>(steps: Seq<BuildStep<'a>>) -> Seq<BuildStepView> {
    steps.map_values(|step: BuildStep<'a>| step@)
}

/// The plan of one registration.
#[derive(Debug, PartialEq, Eq)]
pub struct Plan<'a, R> {
    /// The registrations of the field types, to be made in this order: one
    /// row for the fields of a struct, one row for each variant of an enum.
    pub registrations: Vec<Vec<Registration<'a, R>>>,
    /// The steps that assemble the descriptor once the field types are
    /// registered.
    pub build: Vec<BuildStep<'a>>,
}

/// The mathematical value of a [`Plan`].
pub struct PlanView<R> {
    pub registrations: Seq<Seq<RegistrationView<R>>>,
    pub build: Seq<BuildStepView>,
}

impl<'a, R> View for Plan<'a, R> {
    type V = PlanView<R>;

    open spec fn view(&self) -> PlanView<R> {
        PlanView {
            registrations: self.registrations@.map_values(
                |row: Vec<Registration<'a, R>>| registrations_view(row@),
            ),
            build: steps_view(self.build@),
        }
    }
}

/// The registrations of the types of `fields`, in declared order, each bound
/// to the variable of its field in variant `variant_idx`.
pub open spec fn registrations<R>(variant_idx: int, fields: Seq<Field<R>>) -> Seq<
    RegistrationView<R>,
> {
    Seq::new(
        fields.len(),
        |i: int| RegistrationView { type_id: type_var(variant_idx, i), ty: fields[i].ty },
    )
}

/// One named slot for each of `fields`, in declared order.
pub open spec fn field_steps<R>(variant_idx: int, fields: Seq<Field<R>>) -> Seq<BuildStepView> {
    Seq::new(
        fields.len(),
        |i: int| BuildStepView::Field { name: fields[i].name@, type_id: type_var(variant_idx, i) },
    )
}

/// `count` unnamed slots, in declared order.
pub open spec fn element_steps(variant_idx: int, count: nat) -> Seq<BuildStepView> {
    Seq::new(count, |i: int| BuildStepView::Element { type_id: type_var(variant_idx, i) })
}

/// The slots of a record of `style` with `fields`: named in a struct, unnamed
/// otherwise.
pub open spec fn slot_steps<R>(style: Style, variant_idx: int, fields: Seq<Field<R>>) -> Seq<
    BuildStepView,
> {
    if style.named() {
        field_steps(variant_idx, fields)
    } else {
        element_steps(variant_idx, fields.len())
    }
}

/// The steps that append variant `variant_idx` to the open enum.
pub open spec fn variant_steps<R>(variant_idx: int, variant: Variant<R>) -> Seq<BuildStepView> {
    let name = variant.name@;
    let fields = variant.fields@;
    match variant.style {
        Style::Struct => seq![BuildStepView::StructVariant { name, slots: fields.len() }]
            + field_steps(variant_idx, fields) + seq![BuildStepView::Close],
        Style::Newtype => seq![
            BuildStepView::NewtypeVariant { name, type_id: type_var(variant_idx, 0) },
        ],
        Style::Tuple => seq![BuildStepView::TupleVariant { name, slots: fields.len() }]
            + element_steps(variant_idx, fields.len()) + seq![BuildStepView::Close],
        Style::Unit => seq![BuildStepView::UnitVariant { name }],
    }
}

/// The steps that append all of `variants`, in declared order.
pub open spec fn variants_steps<R>(variants: Seq<Variant<R>>) -> Seq<BuildStepView>
    decreases variants.len(),
{
    if variants.len() == 0 {
        Seq::empty()
    } else {
        variants_steps(variants.drop_last()) + variant_steps(
            variants.len() - 1,
            variants.last(),
        )
    }
}

/// The plan for a struct of `style` named `name` with `fields`.
pub open spec fn struct_plan<R>(style: Style, fields: Seq<Field<R>>, name: Seq<char>) -> PlanView<
    R,
> {
    PlanView {
        registrations: seq![registrations(0, fields)],
        build: seq![BuildStepView::Open { kind: style.kind(), name, slots: fields.len() }]
            + slot_steps(style, 0, fields) + seq![BuildStepView::Close],
    }
}

/// The plan for an enum named `name` with `variants`.
pub open spec fn enum_plan<R>(variants: Seq<Variant<R>>, name: Seq<char>) -> PlanView<R> {
    PlanView {
        registrations: Seq::new(
            variants.len(),
            |j: int| registrations(j, variants[j].fields@),
        ),
        build: seq![BuildStepView::Open { kind: Kind::Enum, name, slots: variants.len() }]
            + variants_steps(variants) + seq![BuildStepView::Close],
    }
}

/// The plan for a type of `shape`.
pub open spec fn plan_of<R>(shape: TypeShape<R>) -> PlanView<R> {
    match shape.data {
        Data::Enum(variants) => enum_plan(variants@, shape.name@),
        Data::Struct(style, fields) => struct_plan(style, fields@, shape.name@),
    }
}

} // verus!

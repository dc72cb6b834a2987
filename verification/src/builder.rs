//! The staged accumulator that assembles a type descriptor slot by slot and
//! variant by variant.
//!
//! A builder is opened for one type, takes the fields, elements or variants of
//! that type in declared order, and is closed once it holds as many of them as
//! it was opened for. An operation that the builder's stage does not admit is
//! a mistake of the caller: every operation states in its `requires` when it
//! may be called.

use vstd::prelude::*;
use crate::descriptor::{
    DescriptorView,
    Record,
    RecordView,
    Slot,
    SlotView,
    TypeDescriptor,
    TypeId,
};
use crate::shape::{Kind, Style};

verus! {

/// A record that is still taking slots, and the number it was opened for.
pub struct PartialView {
    pub record: RecordView,
    pub expected: nat,
}

impl PartialView {
    /// An open record without slots.
    pub open spec fn empty(style: Style, name: Seq<char>, expected: nat) -> PartialView {
        PartialView { record: RecordView { style, name, slots: Seq::empty() }, expected }
    }

    /// Whether the record may take `slot`: there is room for it, and it is
    /// named exactly if the record is a struct.
    pub open spec fn takes(self, slot: SlotView) -> bool {
        &&& self.record.slots.len() < self.expected
        &&& slot.name is Some <==> self.record.style.named()
    }

    /// The record with `slot` appended.
    pub open spec fn push(self, slot: SlotView) -> PartialView {
        PartialView {
            record: RecordView {
                style: self.record.style,
                name: self.record.name,
                slots: self.record.slots.push(slot),
            },
            expected: self.expected,
        }
    }

    /// Whether the record holds all the slots it was opened for.
    pub open spec fn full(self) -> bool {
        self.record.slots.len() == self.expected
    }

    /// An open record is well formed when its style admits the number of
    /// slots it was opened for, it holds no more than that, and exactly the
    /// slots of a struct are named.
    pub open spec fn well_formed(self) -> bool {
        &&& self.record.style.admits(self.expected)
        &&& self.record.slots.len() <= self.expected
        &&& forall|i: int|
            0 <= i < self.record.slots.len() ==> ((#[trigger] self.record.slots[i]).name is Some
                <==> self.record.style.named())
    }
}

/// The stage of a builder.
pub enum BuilderView {
    /// Nothing was opened yet.
    Empty,
    /// A unit, newtype, tuple or struct type is open.
    Record(PartialView),
    /// An enum is open; `open` is the struct or tuple variant that is being
    /// filled, if there is one.
    Enum { name: Seq<char>, expected: nat, variants: Seq<RecordView>, open: Option<PartialView> },
    /// The descriptor is finished.
    Closed(DescriptorView),
}

impl BuilderView {
    /// A stage is well formed when every record in it is, and an open enum
    /// holds no more variants, the open one counted, than it was opened for.
    pub open spec fn well_formed(self) -> bool {
        match self {
            BuilderView::Empty => true,
            BuilderView::Record(partial) => partial.well_formed(),
            BuilderView::Enum { expected, variants, open, .. } => {
                &&& forall|j: int| 0 <= j < variants.len() ==> (#[trigger] variants[j]).well_formed()
                &&& match open {
                    Some(partial) => partial.well_formed() && variants.len() < expected,
                    None => variants.len() <= expected,
                }
            },
            BuilderView::Closed(descriptor) => descriptor.well_formed(),
        }
    }

    /// Begins a descriptor of `kind` for `expected` slots (for an enum:
    /// variants). Only an empty builder can be opened, and only for a number
    /// that the kind admits.
    pub open spec fn open(self, kind: Kind, name: Seq<char>, expected: nat) -> Option<BuilderView> {
        if self is Empty && kind.admits(expected) {
            Some(
                match kind.style() {
                    Some(style) => BuilderView::Record(PartialView::empty(style, name, expected)),
                    None => BuilderView::Enum {
                        name,
                        expected,
                        variants: Seq::empty(),
                        open: None,
                    },
                },
            )
        } else {
            None
        }
    }

    /// The record that is open: the type itself, or the variant being filled.
    pub open spec fn partial(self) -> Option<PartialView> {
        match self {
            BuilderView::Record(partial) => Some(partial),
            BuilderView::Enum { open: Some(partial), .. } => Some(partial),
            _ => None,
        }
    }

    /// This stage with `partial` in place of the record that is open.
    pub open spec fn with_partial(self, partial: PartialView) -> BuilderView {
        match self {
            BuilderView::Record(_) => BuilderView::Record(partial),
            BuilderView::Enum { name, expected, variants, open: Some(_) } => BuilderView::Enum {
                name,
                expected,
                variants,
                open: Some(partial),
            },
            _ => self,
        }
    }

    /// Appends `slot` to the record that is open: the type itself, or the
    /// variant being filled.
    pub open spec fn slot(self, slot: SlotView) -> Option<BuilderView> {
        match self {
            BuilderView::Record(partial) => if partial.takes(slot) {
                Some(BuilderView::Record(partial.push(slot)))
            } else {
                None
            },
            BuilderView::Enum { name, expected, variants, open: Some(partial) } => if partial.takes(
                slot,
            ) {
                Some(BuilderView::Enum { name, expected, variants, open: Some(partial.push(slot)) })
            } else {
                None
            },
            _ => None,
        }
    }

    /// Appends a named slot to the open struct or struct variant.
    pub open spec fn field(self, name: Seq<char>, type_id: TypeId) -> Option<BuilderView> {
        self.slot(SlotView { name: Some(name), type_id })
    }

    /// Appends an unnamed slot to the open newtype, tuple or tuple variant.
    pub open spec fn element(self, type_id: TypeId) -> Option<BuilderView> {
        self.slot(SlotView { name: None, type_id })
    }

    /// Appends the closed variant `record` to the open enum.
    pub open spec fn variant(self, record: RecordView) -> Option<BuilderView> {
        match self {
            BuilderView::Enum { name, expected, variants, open: None } => if variants.len()
                < expected {
                Some(
                    BuilderView::Enum { name, expected, variants: variants.push(record), open: None },
                )
            } else {
                None
            },
            _ => None,
        }
    }

    /// Appends a variant without slots.
    pub open spec fn unit_variant(self, name: Seq<char>) -> Option<BuilderView> {
        self.variant(RecordView { style: Style::Unit, name, slots: Seq::empty() })
    }

    /// Appends a variant with the one unnamed slot `type_id`.
    pub open spec fn newtype_variant(self, name: Seq<char>, type_id: TypeId) -> Option<
        BuilderView,
    > {
        self.variant(
            RecordView {
                style: Style::Newtype,
                name,
                slots: seq![SlotView { name: None, type_id }],
            },
        )
    }

    /// Begins a variant of `style` for `expected` slots inside the open enum.
    pub open spec fn open_variant(self, style: Style, name: Seq<char>, expected: nat) -> Option<
        BuilderView,
    > {
        match self {
            BuilderView::Enum { name: enum_name, expected: variants_expected, variants, open: None } => if variants.len()
                < variants_expected {
                Some(
                    BuilderView::Enum {
                        name: enum_name,
                        expected: variants_expected,
                        variants,
                        open: Some(PartialView::empty(style, name, expected)),
                    },
                )
            } else {
                None
            },
            _ => None,
        }
    }

    /// Begins a variant with `expected` named slots.
    pub open spec fn struct_variant(self, name: Seq<char>, expected: nat) -> Option<BuilderView> {
        self.open_variant(Style::Struct, name, expected)
    }

    /// Begins a variant with `expected` unnamed slots.
    pub open spec fn tuple_variant(self, name: Seq<char>, expected: nat) -> Option<BuilderView> {
        self.open_variant(Style::Tuple, name, expected)
    }

    /// Closes what was opened last. A variant that is being filled goes to its
    /// enum; a type becomes the finished descriptor. Whatever is closed must
    /// hold exactly the number of slots or variants it was opened for.
    pub open spec fn close(self) -> Option<BuilderView> {
        match self {
            BuilderView::Record(partial) => if partial.full() {
                Some(BuilderView::Closed(DescriptorView::Record(partial.record)))
            } else {
                None
            },
            BuilderView::Enum { name, expected, variants, open: Some(partial) } => if partial.full() {
                Some(
                    BuilderView::Enum {
                        name,
                        expected,
                        variants: variants.push(partial.record),
                        open: None,
                    },
                )
            } else {
                None
            },
            BuilderView::Enum { name, expected, variants, open: None } => if variants.len()
                == expected {
                Some(BuilderView::Closed(DescriptorView::Enum { name, variants }))
            } else {
                None
            },
            _ => None,
        }
    }
}

struct Partial {
    record: Record,
    expected: usize,
}

impl View for Partial {
    type V = PartialView;

    closed spec fn view(&self) -> PartialView {
        PartialView { record: self.record@, expected: self.expected as nat }
    }
}

impl Partial {
    fn empty(style: Style, name: &str, expected: usize) -> (partial: Partial)
        ensures
            partial@ == PartialView::empty(style, name@, expected as nat),
    {
        let partial = Partial {
            record: Record { style, name: name.to_owned(), slots: Vec::new() },
            expected,
        };
        proof {
            assert(partial@.record.slots =~= Seq::empty());
        }
        partial
    }

    fn push(self, slot: Slot) -> (partial: Partial)
        ensures
            partial@ == self@.push(slot@),
    {
        let mut partial = self;
        partial.record.slots.push(slot);
        proof {
            assert(partial@.record.slots =~= self@.record.slots.push(slot@));
        }
        partial
    }
}

enum Stage {
    Empty,
    Record(Partial),
    Enum { name: String, expected: usize, variants: Vec<Record>, open: Option<Partial> },
    Closed(TypeDescriptor),
}

/// Assembles one type descriptor.
pub struct TypeBuilder {
    stage: Stage,
}

impl View for TypeBuilder {
    type V = BuilderView;

    closed spec fn view(&self) -> BuilderView {
        match self.stage {
            Stage::Empty => BuilderView::Empty,
            Stage::Record(partial) => BuilderView::Record(partial@),
            Stage::Enum { name, expected, variants, open } => BuilderView::Enum {
                name: name@,
                expected: expected as nat,
                variants: variants@.map_values(|record: Record| record@),
                open: match open {
                    Some(partial) => Some(partial@),
                    None => None,
                },
            },
            Stage::Closed(descriptor) => BuilderView::Closed(descriptor@),
        }
    }
}

impl TypeBuilder {
    /// A builder in which nothing is open.
    pub fn new() -> (builder: TypeBuilder)
        ensures
            builder@ == BuilderView::Empty,
    {
        TypeBuilder { stage: Stage::Empty }
    }

    /// Begins a descriptor of `kind`, named `name`, for `expected` slots or
    /// variants.
    pub fn open(self, kind: Kind, name: &str, expected: usize) -> (builder: TypeBuilder)
        requires
            self@.open(kind, name@, expected as nat) is Some,
        ensures
            Some(builder@) == self@.open(kind, name@, expected as nat),
    {
        match kind.to_style() {
            Some(style) => TypeBuilder { stage: Stage::Record(Partial::empty(style, name, expected)) },
            None => {
                let builder = TypeBuilder {
                    stage: Stage::Enum {
                        name: name.to_owned(),
                        expected,
                        variants: Vec::new(),
                        open: None,
                    },
                };
                proof {
                    assert(builder@->Enum_variants =~= Seq::empty());
                }
                builder
            },
        }
    }

    fn slot(self, slot: Slot) -> (builder: TypeBuilder)
        requires
            self@.slot(slot@) is Some,
        ensures
            Some(builder@) == self@.slot(slot@),
    {
        match self.stage {
            Stage::Record(partial) => TypeBuilder { stage: Stage::Record(partial.push(slot)) },
            Stage::Enum { name, expected, variants, open: Some(partial) } => TypeBuilder {
                stage: Stage::Enum { name, expected, variants, open: Some(partial.push(slot)) },
            },
            other => TypeBuilder { stage: other },
        }
    }

    /// Appends the slot `name` of type `type_id` to the open struct or struct
    /// variant.
    pub fn field(self, name: &str, type_id: TypeId) -> (builder: TypeBuilder)
        requires
            self@.field(name@, type_id) is Some,
        ensures
            Some(builder@) == self@.field(name@, type_id),
    {
        self.slot(Slot { name: Some(name.to_owned()), type_id })
    }

    /// Appends an unnamed slot of type `type_id` to the open newtype, tuple
    /// or tuple variant.
    pub fn element(self, type_id: TypeId) -> (builder: TypeBuilder)
        requires
            self@.element(type_id) is Some,
        ensures
            Some(builder@) == self@.element(type_id),
    {
        self.slot(Slot { name: None, type_id })
    }

    fn variant(self, record: Record) -> (builder: TypeBuilder)
        requires
            self@.variant(record@) is Some,
        ensures
            Some(builder@) == self@.variant(record@),
    {
        match self.stage {
            Stage::Enum { name, expected, variants, open: None } => {
                let mut variants = variants;
                variants.push(record);
                let builder = TypeBuilder {
                    stage: Stage::Enum { name, expected, variants, open: None },
                };
                proof {
                    assert(builder@->Enum_variants =~= self@->Enum_variants.push(record@));
                }
                builder
            },
            other => TypeBuilder { stage: other },
        }
    }

    /// Appends the variant `name`, which has no slots, to the open enum.
    pub fn unit_variant(self, name: &str) -> (builder: TypeBuilder)
        requires
            self@.unit_variant(name@) is Some,
        ensures
            Some(builder@) == self@.unit_variant(name@),
    {
        let record = Record { style: Style::Unit, name: name.to_owned(), slots: Vec::new() };
        proof {
            assert(record@.slots =~= Seq::empty());
        }
        self.variant(record)
    }

    /// Appends the variant `name`, which wraps the type `type_id`, to the
    /// open enum.
    pub fn newtype_variant(self, name: &str, type_id: TypeId) -> (builder: TypeBuilder)
        requires
            self@.newtype_variant(name@, type_id) is Some,
        ensures
            Some(builder@) == self@.newtype_variant(name@, type_id),
    {
        let mut slots: Vec<Slot> = Vec::new();
        slots.push(Slot { name: None, type_id });
        let record = Record { style: Style::Newtype, name: name.to_owned(), slots };
        proof {
            assert(record@.slots =~= seq![SlotView { name: None, type_id }]);
        }
        self.variant(record)
    }

    fn open_variant(self, style: Style, name: &str, expected: usize) -> (builder: TypeBuilder)
        requires
            self@.open_variant(style, name@, expected as nat) is Some,
        ensures
            Some(builder@) == self@.open_variant(style, name@, expected as nat),
    {
        match self.stage {
            Stage::Enum { name: enum_name, expected: variants_expected, variants, open: None } => {
                TypeBuilder {
                    stage: Stage::Enum {
                        name: enum_name,
                        expected: variants_expected,
                        variants,
                        open: Some(Partial::empty(style, name, expected)),
                    },
                }
            },
            other => TypeBuilder { stage: other },
        }
    }

    /// Begins the variant `name` with `expected` named slots inside the open
    /// enum.
    pub fn struct_variant(self, name: &str, expected: usize) -> (builder: TypeBuilder)
        requires
            self@.struct_variant(name@, expected as nat) is Some,
        ensures
            Some(builder@) == self@.struct_variant(name@, expected as nat),
    {
        self.open_variant(Style::Struct, name, expected)
    }

    /// Begins the variant `name` with `expected` unnamed slots inside the
    /// open enum.
    pub fn tuple_variant(self, name: &str, expected: usize) -> (builder: TypeBuilder)
        requires
            self@.tuple_variant(name@, expected as nat) is Some,
        ensures
            Some(builder@) == self@.tuple_variant(name@, expected as nat),
    {
        self.open_variant(Style::Tuple, name, expected)
    }

    /// Closes what was opened last: the variant that is being filled, or else
    /// the type itself.
    pub fn close(self) -> (builder: TypeBuilder)
        requires
            self@.close() is Some,
        ensures
            Some(builder@) == self@.close(),
    {
        match self.stage {
            Stage::Record(partial) => TypeBuilder {
                stage: Stage::Closed(TypeDescriptor::Record(partial.record)),
            },
            Stage::Enum { name, expected, variants, open: Some(partial) } => {
                let mut variants = variants;
                variants.push(partial.record);
                let builder = TypeBuilder {
                    stage: Stage::Enum { name, expected, variants, open: None },
                };
                proof {
                    assert(builder@->Enum_variants =~= self@->Enum_variants.push(
                        partial@.record,
                    ));
                }
                builder
            },
            Stage::Enum { name, expected, variants, open: None } => TypeBuilder {
                stage: Stage::Closed(TypeDescriptor::Enum { name, variants }),
            },
            other => TypeBuilder { stage: other },
        }
    }

    /// Hands out the finished descriptor.
    pub fn finish(self) -> (descriptor: TypeDescriptor)
        requires
            self@ is Closed,
        ensures
            BuilderView::Closed(descriptor@) == self@,
    {
        match self.stage {
            Stage::Closed(descriptor) => descriptor,
            _ => unreached(),
        }
    }
}

} // verus!

//! Finished type descriptors, as a schema store holds them.

use vstd::prelude::*;
use crate::shape::{Kind, Style};

verus! {

/// An opaque handle that a schema store hands out for a registered type.
#[derive(Clone, Copy, Debug, PartialEq, Eq, Hash, Structural)]
pub struct TypeId(pub u64);

/// One slot of a record: the type it holds and, in a struct, its name.
#[derive(Clone, Debug, PartialEq, Eq)]
pub struct Slot {
    pub name: Option<String>,
    pub type_id: TypeId,
}

/// The mathematical value of a [`Slot`].
pub struct SlotView {
    pub name: Option<Seq<char>>,
    pub type_id: TypeId,
}

impl View for Slot {
    type V = SlotView;

    open spec fn view(&self) -> SlotView {
        SlotView {
            name: match self.name {
                Some(name) => Some(name@),
                None => None,
            },
            type_id: self.type_id,
        }
    }
}

/// A closed unit, newtype, tuple or struct descriptor: a whole type, or one
/// variant of an enum.
#[derive(Clone, Debug, PartialEq, Eq)]
pub struct Record {
    pub style: Style,
    pub name: String,
    pub slots: Vec<Slot>,
}

/// The mathematical value of a [`Record`].
pub struct RecordView {
    pub style: Style,
    pub name: Seq<char>,
    pub slots: Seq<SlotView>,
}

impl View for Record {
    type V = RecordView;

    open spec fn view(&self) -> RecordView {
        RecordView {
            style: self.style,
            name: self.name@,
            slots: self.slots@.map_values(|slot: Slot| slot@),
        }
    }
}

impl RecordView {
    /// A record is well formed when its style admits its number of slots and
    /// exactly the slots of a struct are named.
    pub open spec fn well_formed(self) -> bool {
        &&& self.style.admits(self.slots.len())
        &&& forall|i: int| 0 <= i < self.slots.len() ==>
            ((#[trigger] self.slots[i]).name is Some <==> self.style.named())
    }
}

/// The finished description of a registered type.
#[derive(Clone, Debug, PartialEq, Eq)]
pub enum TypeDescriptor {
    Record(Record),
    Enum { name: String, variants: Vec<Record> },
}

/// The mathematical value of a [`TypeDescriptor`].
pub enum DescriptorView {
    Record(RecordView),
    Enum { name: Seq<char>, variants: Seq<RecordView> },
}

impl View for TypeDescriptor {
    type V = DescriptorView;

    open spec fn view(&self) -> DescriptorView {
        match self {
            TypeDescriptor::Record(record) => DescriptorView::Record(record@),
            TypeDescriptor::Enum { name, variants } => DescriptorView::Enum {
                name: name@,
                variants: variants@.map_values(|record: Record| record@),
            },
        }
    }
}

impl DescriptorView {
    /// The schema name of the described type.
    pub open spec fn name(self) -> Seq<char> {
        match self {
            DescriptorView::Record(record) => record.name,
            DescriptorView::Enum { name, .. } => name,
        }
    }

    /// The kind of the described type.
    pub open spec fn kind(self) -> Kind {
        match self {
            DescriptorView::Record(record) => record.style.kind(),
            DescriptorView::Enum { .. } => Kind::Enum,
        }
    }

    /// Every record in the descriptor is well formed.
    pub open spec fn well_formed(self) -> bool {
        match self {
            DescriptorView::Record(record) => record.well_formed(),
            DescriptorView::Enum { variants, .. } => forall|j: int|
                0 <= j < variants.len() ==> (#[trigger] variants[j]).well_formed(),
        }
    }
}

impl TypeDescriptor {
    /// The schema name of the described type.
    pub fn name(&self) -> (name: &String)
        ensures
            name@ == self@.name(),
    {
        match self {
            TypeDescriptor::Record(record) => &record.name,
            TypeDescriptor::Enum { name, .. } => name,
        }
    }

    /// The kind of the described type.
    pub fn kind(&self) -> (kind: Kind)
        ensures
            kind == self@.kind(),
    {
        match self {
            TypeDescriptor::Record(record) => record.style.to_kind(),
            TypeDescriptor::Enum { .. } => Kind::Enum,
        }
    }
}

} // verus!

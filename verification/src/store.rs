//! The schema store: an append-only registry of finished type descriptors.

use vstd::prelude::*;
use crate::descriptor::{DescriptorView, TypeDescriptor, TypeId};

verus! {

/// Why a store refused a descriptor.
#[derive(Clone, Copy, Debug, PartialEq, Eq, Structural)]
pub enum StoreError {
    /// The descriptor's name is taken by the type registered under this id.
    DuplicateName(TypeId),
}

/// The index of the first of `entries` that bears `name`.
pub open spec fn position(entries: Seq<DescriptorView>, name: Seq<char>) -> Option<int>
    decreases entries.len(),
{
    if entries.len() == 0 {
        None
    } else {
        match position(entries.drop_last(), name) {
            Some(i) => Some(i),
            None => if entries.last().name() == name {
                Some(entries.len() - 1)
            } else {
                None
            },
        }
    }
}

/// What `position` finds is the least index that bears the name, and it finds
/// nothing only where no entry bears it.
pub proof fn lemma_position(entries: Seq<DescriptorView>, name: Seq<char>)
    ensures
        match position(entries, name) {
            Some(i) => {
                &&& 0 <= i < entries.len()
                &&& entries[i].name() == name
                &&& forall|j: int| 0 <= j < i ==> (#[trigger] entries[j]).name() != name
            },
            None => forall|j: int| 0 <= j < entries.len() ==> (#[trigger] entries[j]).name() != name,
        },
    decreases entries.len(),
{
    if entries.len() > 0 {
        lemma_position(entries.drop_last(), name);
        assert forall|j: int| 0 <= j < entries.len() - 1 implies entries.drop_last()[j]
            == entries[j] by {}
    }
}

/// What a store holds after it was asked to register `descriptor`, and what
/// it answered: a name that is taken is refused and the store stays as it
/// was; any other descriptor is appended and gets the next id.
pub open spec fn submit(entries: Seq<DescriptorView>, descriptor: DescriptorView) -> (
    Result<TypeId, StoreError>,
    Seq<DescriptorView>,
) {
    match position(entries, descriptor.name()) {
        Some(i) => (Err(StoreError::DuplicateName(TypeId(i as u64))), entries),
        None => (Ok(TypeId(entries.len() as u64)), entries.push(descriptor)),
    }
}

/// Whether no two of `entries` bear the same name.
pub open spec fn names_unique(entries: Seq<DescriptorView>) -> bool {
    forall|i: int, j: int|
        0 <= i < j < entries.len() ==> (#[trigger] entries[i]).name() != (
        #[trigger] entries[j]).name()
}

/// A store in which every name occurs once stays so, whatever is submitted.
pub proof fn law_submit_keeps_names_unique(entries: Seq<DescriptorView>, descriptor: DescriptorView)
    requires
        names_unique(entries),
    ensures
        names_unique(submit(entries, descriptor).1),
{
    lemma_position(entries, descriptor.name());
}

/// An append-only registry of type descriptors. The id of a descriptor is its
/// position in the registry, so ids are issued in order and never reused.
pub struct SchemaStore {
    types: Vec<TypeDescriptor>,
}

impl View for SchemaStore {
    type V = Seq<DescriptorView>;

    closed spec fn view(&self) -> Seq<DescriptorView> {
        self.types@.map_values(|descriptor: TypeDescriptor| descriptor@)
    }
}

impl SchemaStore {
    /// What holds of every store: no two registered types bear the same
    /// name.
    #[verifier::type_invariant]
    pub open spec fn no_name_twice(self) -> bool {
        names_unique(self@)
    }

    /// A store that holds nothing.
    pub fn new() -> (store: SchemaStore)
        ensures
            store@ == Seq::<DescriptorView>::empty(),
    {
        SchemaStore { types: Vec::new() }
    }

    /// The number of registered types.
    pub fn len(&self) -> (len: usize)
        ensures
            len == self@.len(),
    {
        self.types.len()
    }

    /// The descriptor registered under `id`, if there is one.
    pub fn get(&self, id: TypeId) -> (found: Option<&TypeDescriptor>)
        ensures
            match found {
                Some(descriptor) => id.0 < self@.len() && descriptor@ == self@[id.0 as int],
                None => id.0 >= self@.len(),
            },
    {
        if id.0 < self.types.len() as u64 {
            Some(&self.types[id.0 as usize])
        } else {
            None
        }
    }

    /// The id of the registered type that bears `name`, if there is one.
    pub fn lookup(&self, name: &str) -> (found: Option<TypeId>)
        ensures
            match position(self@, name@) {
                Some(i) => found == Some(TypeId(i as u64)),
                None => found is None,
            },
    {
        let wanted: String = name.to_owned();
        let mut i: usize = 0;
        while i < self.types.len()
            invariant
                i <= self.types.len(),
                wanted@ == name@,
                position(self@.take(i as int), name@) is None,
            decreases self.types.len() - i,
        {
            proof {
                assert(self@.take(i + 1).drop_last() == self@.take(i as int));
            }
            if *self.types[i].name() == wanted {
                proof {
                    lemma_position_extends(self@.take(i + 1), self@, name@);
                }
                return Some(TypeId(i as u64));
            }
            i += 1;
        }
        proof {
            assert(self@.take(i as int) == self@);
        }
        None
    }

    /// Registers `descriptor`: refuses it if its name is taken, else appends
    /// it and issues the next id.
    pub fn register(&mut self, descriptor: TypeDescriptor) -> (answer: Result<TypeId, StoreError>)
        ensures
            answer == submit(old(self)@, descriptor@).0,
            final(self)@ == submit(old(self)@, descriptor@).1,
            names_unique(old(self)@),
            names_unique(final(self)@),
    {
        proof {
            use_type_invariant(&*self);
            law_submit_keeps_names_unique(self@, descriptor@);
        }
        match self.lookup(descriptor.name().as_str()) {
            Some(holder) => Err(StoreError::DuplicateName(holder)),
            None => {
                let id = TypeId(self.types.len() as u64);
                let mut types: Vec<TypeDescriptor> = Vec::new();
                proof {
                    assert(self.types@.push(descriptor).map_values(
                        |descriptor: TypeDescriptor| descriptor@,
                    ) =~= self@.push(descriptor@));
                    assert(types@.map_values(|descriptor: TypeDescriptor| descriptor@)
                        =~= Seq::empty());
                }
                // The list is taken out while it grows: the store is never
                // seen with a name twice, not even in passing.
                core::mem::swap(&mut self.types, &mut types);
                types.push(descriptor);
                core::mem::swap(&mut self.types, &mut types);
                Ok(id)
            },
        }
    }
}

/// A name found among the first entries is found at the same place among all.
pub proof fn lemma_position_extends(
    prefix: Seq<DescriptorView>,
    entries: Seq<DescriptorView>,
    name: Seq<char>,
)
    requires
        prefix.is_prefix_of(entries),
        position(prefix, name) is Some,
    ensures
        position(entries, name) == position(prefix, name),
    decreases entries.len(),
{
    if entries.len() > prefix.len() {
        assert(prefix.is_prefix_of(entries.drop_last()));
        lemma_position_extends(prefix, entries.drop_last(), name);
    } else {
        assert(prefix == entries);
    }
}

} // verus!

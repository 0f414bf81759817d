//! The children of a widget and where each stands within it.

use vstd::prelude::*;
use crate::components::transform::{Position, Size, Transform};
use crate::error::LayoutError;

verus! {

/// A child, known by its identifier, and its transform within the parent.
#[derive(Copy, Clone, Eq, PartialEq, Debug, Structural)]
pub struct HierarchyChild {
    pub id: u128,
    pub transform: Transform,
}

/// Whether a child with identifier `id` is among `children`.
pub open spec fn has_child(children: Seq<HierarchyChild>, id: u128) -> bool {
    exists|i: int| 0 <= i < children.len() && (#[trigger] children[i]).id == id
}

/// Whether no two of `children` share an identifier.
pub open spec fn distinct_ids(children: Seq<HierarchyChild>) -> bool {
    forall|i: int, j: int|
        0 <= i < children.len() && 0 <= j < children.len() && i != j ==> (#[trigger] children[i]).id
            != (#[trigger] children[j]).id
}

/// Whether `index` is where the child with identifier `id` stands.
pub open spec fn is_index_of(children: Seq<HierarchyChild>, id: u128, index: int) -> bool {
    0 <= index < children.len() && children[index].id == id
}

/// Where the child with identifier `id` stands among `children`.
pub open spec fn index_of(children: Seq<HierarchyChild>, id: u128) -> int {
    choose|i: int| is_index_of(children, id, i)
}

/// A child stands where `index_of` says it does.
pub proof fn lemma_index_of(children: Seq<HierarchyChild>, id: u128)
    requires
        has_child(children, id),
    ensures
        is_index_of(children, id, index_of(children, id)),
{
    let i = choose|i: int| 0 <= i < children.len() && (#[trigger] children[i]).id == id;
    assert(is_index_of(children, id, i));
}

/// The transform of the child with identifier `id`.
pub open spec fn transform_of(children: Seq<HierarchyChild>, id: u128) -> Transform {
    children[index_of(children, id)].transform
}

/// The children of a widget, in the order in which they are painted: the
/// last one lies on top. No identifier occurs twice.
#[derive(Debug)]
pub struct Hierarchy {
    children: Vec<HierarchyChild>,
}

impl View for Hierarchy {
    type V = Seq<HierarchyChild>;

    closed spec fn view(&self) -> Seq<HierarchyChild> {
        self.children@
    }
}

impl Hierarchy {
    /// Whether no identifier occurs twice.
    pub open spec fn well_formed(&self) -> bool {
        distinct_ids(self@)
    }

    /// A hierarchy without children.
    pub fn new() -> (hierarchy: Self)
        ensures
            hierarchy@ == Seq::<HierarchyChild>::empty(),
            hierarchy.well_formed(),
    {
        Self { children: Vec::new() }
    }

    /// Where the child with identifier `id` stands, if it is a child.
    pub fn index(&self, id: &u128) -> (found: Option<usize>)
        ensures
            match found {
                Some(i) => is_index_of(self@, *id, i as int) && forall|j: int|
                    0 <= j < i ==> (#[trigger] self@[j]).id != *id,
                None => !has_child(self@, *id),
            },
            self.well_formed() && found.is_some() ==> found.unwrap() == index_of(self@, *id),
    {
        let count = self.children.len();
        let mut idx: usize = 0;
        while idx < count
            invariant
                idx <= count,
                count == self.children.len(),
                forall|j: int| 0 <= j < idx ==> (#[trigger] self@[j]).id != *id,
            decreases count - idx,
        {
            if self.children[idx].id == *id {
                proof {
                    assert(is_index_of(self@, *id, idx as int));
                    if self.well_formed() {
                        let other = index_of(self@, *id);
                        assert(is_index_of(self@, *id, other));
                    }
                }
                return Some(idx);
            }
            idx = idx + 1;
        }
        None
    }

    /// The children with their transforms.
    pub fn children(&self) -> (children: &Vec<HierarchyChild>)
        ensures
            children@ == self@,
    {
        &self.children
    }

    /// Adds `child` behind the others, with the empty transform at the
    /// origin. Refuses a child that is there already.
    pub fn add(&mut self, child: u128) -> (result: Result<(), LayoutError>)
        requires
            old(self).well_formed(),
        ensures
            final(self).well_formed(),
            match result {
                Ok(_) => !has_child(old(self)@, child) && final(self)@ == old(self)@.push(
                    HierarchyChild {
                        id: child,
                        transform: Transform {
                            pos: Position { x: 0, y: 0 },
                            size: Size { x: 0, y: 0 },
                        },
                    },
                ),
                Err(e) => e == LayoutError::DuplicateAssignment && has_child(old(self)@, child)
                    && final(self)@ == old(self)@,
            },
    {
        let transform = Transform::default();
        self.add_with_transform(child, &transform)
    }

    /// Adds `child` behind the others, with `transform`. Refuses a child
    /// that is there already.
    pub fn add_with_transform(&mut self, child: u128, transform: &Transform) -> (result: Result<
        (),
        LayoutError,
    >)
        requires
            old(self).well_formed(),
        ensures
            final(self).well_formed(),
            match result {
                Ok(_) => !has_child(old(self)@, child) && final(self)@ == old(self)@.push(
                    HierarchyChild { id: child, transform: *transform },
                ),
                Err(e) => e == LayoutError::DuplicateAssignment && has_child(old(self)@, child)
                    && final(self)@ == old(self)@,
            },
    {
        match self.index(&child) {
            Some(_) => Err(LayoutError::DuplicateAssignment),
            None => {
                self.children.push(HierarchyChild { id: child, transform: *transform });
                Ok(())
            },
        }
    }

    /// Removes the child with identifier `id`; the others keep their
    /// order. Refuses an identifier that no child has.
    pub fn remove(&mut self, id: &u128) -> (result: Result<(), LayoutError>)
        requires
            old(self).well_formed(),
        ensures
            final(self).well_formed(),
            match result {
                Ok(_) => has_child(old(self)@, *id) && final(self)@ == old(self)@.remove(
                    index_of(old(self)@, *id),
                ) && !has_child(final(self)@, *id),
                Err(e) => e == LayoutError::OutOfRange && !has_child(old(self)@, *id) 
                    && final(self)@ == old(self)@,
            },
    {
        match self.index(id) {
            Some(idx) => {
                self.children.remove(idx);
                proof {
                    let before = old(self)@;
                    let after = self@;
                    assert forall|i: int| 0 <= i < after.len() implies (#[trigger] after[i]).id
                        != *id by {
                        if i < idx {
                            assert(after[i] == before[i]);
                        } else {
                            assert(after[i] == before[i + 1]);
                        }
                    }
                    assert forall|i: int, j: int|
                        0 <= i < after.len() && 0 <= j < after.len() && i != j implies (
                    #[trigger] after[i]).id != (#[trigger] after[j]).id by {
                        let a = if i < idx { i } else { i + 1 };
                        let b = if j < idx { j } else { j + 1 };
                        assert(after[i] == before[a]);
                        assert(after[j] == before[b]);
                    }
                }
                Ok(())
            },
            None => Err(LayoutError::OutOfRange),
        }
    }

    /// Moves the child with identifier `id` to `pos`. Refuses an
    /// identifier that no child has.
    pub fn set_pos(&mut self, id: &u128, pos: &Position) -> (result: Result<(), LayoutError>)
        requires
            old(self).well_formed(),
        ensures
            final(self).well_formed(),
            match result {
                Ok(_) => has_child(old(self)@, *id) && final(self)@ == old(self)@.update(
                    index_of(old(self)@, *id),
                    HierarchyChild {
                        id: *id,
                        transform: Transform {
                            pos: *pos,
                            size: transform_of(old(self)@, *id).size,
                        },
                    },
                ),
                Err(e) => e == LayoutError::OutOfRange && !has_child(old(self)@, *id) 
                    && final(self)@ == old(self)@,
            },
    {
        match self.index(id) {
            Some(idx) => {
                let size = self.children[idx].transform.size;
                self.children.set(
                    idx,
                    HierarchyChild { id: *id, transform: Transform { pos: *pos, size } },
                );
                Ok(())
            },
            None => Err(LayoutError::OutOfRange),
        }
    }

    /// Resizes the child with identifier `id` to `size`. Refuses an
    /// identifier that no child has.
    pub fn set_size(&mut self, id: &u128, size: &Size) -> (result: Result<(), LayoutError>)
        requires
            old(self).well_formed(),
        ensures
            final(self).well_formed(),
            match result {
                Ok(_) => has_child(old(self)@, *id) && final(self)@ == old(self)@.update(
                    index_of(old(self)@, *id),
                    HierarchyChild {
                        id: *id,
                        transform: Transform {
                            pos: transform_of(old(self)@, *id).pos,
                            size: *size,
                        },
                    },
                ),
                Err(e) => e == LayoutError::OutOfRange && !has_child(old(self)@, *id) 
                    && final(self)@ == old(self)@,
            },
    {
        match self.index(id) {
            Some(idx) => {
                let pos = self.children[idx].transform.pos;
                self.children.set(
                    idx,
                    HierarchyChild { id: *id, transform: Transform { pos, size: *size } },
                );
                Ok(())
            },
            None => Err(LayoutError::OutOfRange),
        }
    }

    /// Gives the child with identifier `id` the transform `transform`.
    /// Refuses an identifier that no child has.
    pub fn set_transform(&mut self, id: &u128, transform: &Transform) -> (result: Result<
        (),
        LayoutError,
    >)
        requires
            old(self).well_formed(),
        ensures
            final(self).well_formed(),
            match result {
                Ok(_) => has_child(old(self)@, *id) && final(self)@ == old(self)@.update(
                    index_of(old(self)@, *id),
                    HierarchyChild { id: *id, transform: *transform },
                ),
                Err(e) => e == LayoutError::OutOfRange && !has_child(old(self)@, *id) 
                    && final(self)@ == old(self)@,
            },
    {
        match self.index(id) {
            Some(idx) => {
                self.children.set(idx, HierarchyChild { id: *id, transform: *transform });
                Ok(())
            },
            None => Err(LayoutError::OutOfRange),
        }
    }

    /// The transform of the child with identifier `id`. Refuses an
    /// identifier that no child has.
    pub fn get_transform(&self, id: &u128) -> (result: Result<&Transform, LayoutError>)
        requires
            self.well_formed(),
        ensures
            match result {
                Ok(transform) => has_child(self@, *id) && *transform == transform_of(self@, *id),
                Err(e) => e == LayoutError::OutOfRange && !has_child(self@, *id),
            },
    {
        match self.index(id) {
            Some(idx) => Ok(&self.children[idx].transform),
            None => Err(LayoutError::OutOfRange),
        }
    }
}

impl Default for Hierarchy {
    fn default() -> (hierarchy: Self)
        ensures
            hierarchy@ == Seq::<HierarchyChild>::empty(),
            hierarchy.well_formed(),
    {
        Self::new()
    }
}

} // verus!

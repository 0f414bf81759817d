//! A layout that leaves every child where it was put: positions and sizes
//! are set one by one and stay when the layout's own size changes.

use vstd::prelude::*;
use crate::components::hierarchy::{
    distinct_ids, has_child, index_of, transform_of, Hierarchy, HierarchyChild,
};
use crate::components::ident::new_v4;
use crate::components::transform::{Position, Size, Transform};
use crate::error::LayoutError;

verus! {

/// Children with transforms that are set by hand.
#[derive(Debug)]
pub struct CanvasLayout {
    id: u128,
    hierarchy: Hierarchy,
}

/// A canvas layout as its contracts see it.
pub struct CanvasModel {
    /// The layout's own identifier.
    pub id: u128,
    /// The children with their transforms, in the order in which they are
    /// painted.
    pub children: Seq<HierarchyChild>,
}

impl View for CanvasLayout {
    type V = CanvasModel;

    closed spec fn view(&self) -> CanvasModel {
        CanvasModel { id: self.id, children: self.hierarchy@ }
    }
}

impl CanvasLayout {
    /// Whether no identifier occurs twice among the children.
    pub open spec fn well_formed(&self) -> bool {
        distinct_ids(self@.children)
    }

    /// A layout without children, under a fresh identifier.
    pub fn new_raw() -> (layout: Self)
        ensures
            layout.well_formed(),
            layout@.children == Seq::<HierarchyChild>::empty(),
            layout@.id & 0x0000_0000_0000_F000_C000_0000_0000_0000
                == 0x0000_0000_0000_4000_8000_0000_0000_0000,
    {
        Self { id: new_v4(), hierarchy: Hierarchy::default() }
    }

    /// Adds `child` behind the others, with `transform`: it is painted
    /// last. Refuses a child that is there already.
    pub fn add_child_with_transform(&mut self, child: u128, transform: &Transform) -> (result: Result<
        (),
        LayoutError,
    >)
        requires
            old(self).well_formed(),
        ensures
            final(self).well_formed(),
            final(self)@.id == old(self)@.id,
            match result {
                Ok(_) => !has_child(old(self)@.children, child) && final(self)@.children == old(
                    self,
                )@.children.push(HierarchyChild { id: child, transform: *transform }),
                Err(e) => e == LayoutError::DuplicateAssignment && has_child(
                    old(self)@.children,
                    child,
                ) && final(self)@.children == old(self)@.children,
            },
    {
        self.hierarchy.add_with_transform(child, transform)
    }

    /// Gives the child `child` the transform `new_transform`. Refuses an
    /// identifier that no child has.
    pub fn set_child_transform(&mut self, child: &u128, new_transform: &Transform) -> (result:
        Result<(), LayoutError>)
        requires
            old(self).well_formed(),
        ensures
            final(self).well_formed(),
            final(self)@.id == old(self)@.id,
            match result {
                Ok(_) => has_child(old(self)@.children, *child) && final(self)@.children == old(
                    self,
                )@.children.update(
                    index_of(old(self)@.children, *child),
                    HierarchyChild { id: *child, transform: *new_transform },
                ),
                Err(e) => e == LayoutError::OutOfRange && !has_child(old(self)@.children, *child)
                    && final(self)@.children == old(self)@.children,
            },
    {
        self.hierarchy.set_transform(child, new_transform)
    }

    /// Moves the child `child` to `new_pos`. Refuses an identifier that no
    /// child has.
    pub fn set_child_pos(&mut self, child: &u128, new_pos: &Position) -> (result: Result<
        (),
        LayoutError,
    >)
        requires
            old(self).well_formed(),
        ensures
            final(self).well_formed(),
            final(self)@.id == old(self)@.id,
            match result {
                Ok(_) => has_child(old(self)@.children, *child) && final(self)@.children == old(
                    self,
                )@.children.update(
                    index_of(old(self)@.children, *child),
                    HierarchyChild {
                        id: *child,
                        transform: Transform {
                            pos: *new_pos,
                            size: transform_of(old(self)@.children, *child).size,
                        },
                    },
                ),
                Err(e) => e == LayoutError::OutOfRange && !has_child(old(self)@.children, *child)
                    && final(self)@.children == old(self)@.children,
            },
    {
        self.hierarchy.set_pos(child, new_pos)
    }

    /// Resizes the child `child` to `new_size`. Refuses an identifier that
    /// no child has.
    pub fn set_child_size(&mut self, child: &u128, new_size: &Size) -> (result: Result<
        (),
        LayoutError,
    >)
        requires
            old(self).well_formed(),
        ensures
            final(self).well_formed(),
            final(self)@.id == old(self)@.id,
            match result {
                Ok(_) => has_child(old(self)@.children, *child) && final(self)@.children == old(
                    self,
                )@.children.update(
                    index_of(old(self)@.children, *child),
                    HierarchyChild {
                        id: *child,
                        transform: Transform {
                            pos: transform_of(old(self)@.children, *child).pos,
                            size: *new_size,
                        },
                    },
                ),
                Err(e) => e == LayoutError::OutOfRange && !has_child(old(self)@.children, *child)
                    && final(self)@.children == old(self)@.children,
            },
    {
        self.hierarchy.set_size(child, new_size)
    }

    /// The layout's own identifier.
    pub fn id(&self) -> (id: &u128)
        ensures
            *id == self@.id,
    {
        &self.id
    }

    /// Removes the child `child`; the others keep their order. Refuses an
    /// identifier that no child has.
    pub fn remove_child(&mut self, child: &u128) -> (result: Result<(), LayoutError>)
        requires
            old(self).well_formed(),
        ensures
            final(self).well_formed(),
            final(self)@.id == old(self)@.id,
            match result {
                Ok(_) => has_child(old(self)@.children, *child) && final(self)@.children == old(
                    self,
                )@.children.remove(
                    index_of(old(self)@.children, *child),
                ) && !has_child(final(self)@.children, *child),
                Err(e) => e == LayoutError::OutOfRange && !has_child(old(self)@.children, *child)
                    && final(self)@.children == old(self)@.children,
            },
    {
        self.hierarchy.remove(child)
    }

    /// The children with their transforms.
    pub fn get_hierarchy(&self) -> (hierarchy: &Hierarchy)
        ensures
            hierarchy@ == self@.children,
            hierarchy.well_formed() == self.well_formed(),
    {
        &self.hierarchy
    }

    /// The transform of the child `child`. Refuses an identifier that no
    /// child has.
    pub fn get_child_transform(&self, child: &u128) -> (result: Result<&Transform, LayoutError>)
        requires
            self.well_formed(),
        ensures
            match result {
                Ok(transform) => has_child(self@.children, *child) && *transform == transform_of(
                    self@.children,
                    *child,
                ),
                Err(e) => e == LayoutError::OutOfRange && !has_child(self@.children, *child),
            },
    {
        self.hierarchy.get_transform(child)
    }
}

} // verus!

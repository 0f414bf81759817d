//! Signals and the slots connected to them.

use vstd::prelude::*;
use std::cell::RefCell;
use std::marker::PhantomData;
use std::rc::Rc;

verus! {

/// `std::cell::RefCell`, carried through as an opaque value: nothing is
/// claimed of what a cell holds.
#[verifier::external_type_specification]
#[verifier::external_body]
#[verifier::reject_recursive_types(T)]
pub struct ExRefCell<T: ?Sized>(RefCell<T>);

/// A handler for the values that a signal sends.
pub struct Slot<Args, F: FnMut(Args)> {
    fn_slot: F,
    args: PhantomData<Args>,
}

impl<Args, F: FnMut(Args)> Slot<Args, F> {
    /// The handler that the slot holds.
    pub closed spec fn handler(&self) -> F {
        self.fn_slot
    }

    pub fn new(fn_slot: F) -> (slot: Self)
        ensures
            slot.handler() == fn_slot,
    {
        Self { fn_slot, args: PhantomData }
    }
}

/// The slots connected to one source of values, in the order in which they
/// were connected.
#[verifier::reject_recursive_types(Args)]
#[verifier::reject_recursive_types(F)]
pub struct Signal<Args, F: FnMut(Args)> {
    slots: Vec<Rc<RefCell<Slot<Args, F>>>>,
}

impl<Args, F: FnMut(Args)> Signal<Args, F> {
    /// The connected slots, earliest first.
    pub closed spec fn slots(&self) -> Seq<Rc<RefCell<Slot<Args, F>>>> {
        self.slots@
    }

    /// A signal with no slot.
    pub fn new() -> (signal: Self)
        ensures
            signal.slots() == Seq::<Rc<RefCell<Slot<Args, F>>>>::empty(),
    {
        Self { slots: Vec::new() }
    }

    /// Connects `slot` behind the slots that are connected already.
    pub fn connect(&mut self, slot: Rc<RefCell<Slot<Args, F>>>)
        ensures
            final(self).slots() == old(self).slots().push(slot),
    {
        self.slots.push(slot);
    }
}

} // verus!

//! A one-slot mailbox that moves a value from one context to another exactly once.
//!
//! The producer fills the slot before the consumer can first run (the timer that starts the
//! consumer is armed only afterwards), so the two never touch the slot at the same time.
use vstd::prelude::*;

verus! {

/// The slot after `enqueue(item)`.
pub open spec fn enqueue_post<T>(slot: Option<T>, item: T) -> Option<T> {
    match slot {
        None => Some(item),
        Some(held) => Some(held),
    }
}

/// What `enqueue(item)` returns: success into an empty slot, else the item handed back.
pub open spec fn enqueue_result<T>(slot: Option<T>, item: T) -> Result<(), T> {
    match slot {
        None => Ok(()),
        Some(_) => Err(item),
    }
}

/// What `dequeue` returns: the item in the slot, if any.
pub open spec fn dequeue_result<T>(slot: Option<T>) -> Option<T> {
    slot
}

/// The slot after `dequeue`: always empty.
pub open spec fn dequeue_post<T>(slot: Option<T>) -> Option<T> {
    None
}

/// A mailbox of capacity one.
pub struct Mailbox<T> {
    slot: Option<T>,
}

impl<T> View for Mailbox<T> {
    type V = Option<T>;

    closed spec fn view(&self) -> Option<T> {
        self.slot
    }
}

impl<T> Mailbox<T> {
    pub fn new() -> (r: Self)
        ensures
            r@ is None,
    {
        Mailbox { slot: None }
    }

    pub fn is_empty(&self) -> (r: bool)
        ensures
            r == (self@ is None),
    {
        self.slot.is_none()
    }

    /// Put `item` into the slot. Where the slot is taken, the item is handed back unchanged and
    /// the slot keeps what it held.
    pub fn enqueue(&mut self, item: T) -> (r: Result<(), T>)
        ensures
            final(self)@ == enqueue_post(old(self)@, item),
            r == enqueue_result(old(self)@, item),
    {
        if self.slot.is_some() {
            Err(item)
        } else {
            self.slot = Some(item);
            Ok(())
        }
    }

    /// Take the item out of the slot, if there is one; never waits.
    pub fn dequeue(&mut self) -> (r: Option<T>)
        ensures
            r == dequeue_result(old(self)@),
            final(self)@ == dequeue_post(old(self)@),
    {
        self.slot.take()
    }
}

/// Once an item has gone into an empty mailbox, a second `enqueue` before any `dequeue` fails,
/// hands its own item back unchanged and leaves the first item in the slot.
pub proof fn lemma_second_enqueue_fails<T>(first: T, second: T)
    ensures
        enqueue_result(enqueue_post(None, first), second) == Err::<(), T>(second),
        enqueue_post(enqueue_post(None, first), second) == Some(first),
{
}

/// `dequeue` on an empty mailbox finds nothing and leaves it empty, so repeating it gives the
/// same outcome; and after any `dequeue` the mailbox is empty.
pub proof fn lemma_dequeue_empty_idempotent<T>(slot: Option<T>)
    ensures
        slot is None ==> dequeue_result(slot) is None && dequeue_post(slot) == slot,
        dequeue_result(dequeue_post(slot)) is None,
        dequeue_post(dequeue_post(slot)) == dequeue_post(slot),
{
}

} // verus!

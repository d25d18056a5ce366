//! The single-slot handoff from the poller to the display: a `put` is refused
//! while an item waits, so the producer stays at most one item ahead.

use vstd::prelude::*;

verus! {

/// What the consumer finds when it looks into the mailbox.
pub enum Received<T> {
    Item(T),
    /// Nothing waits, and the producer may still put.
    Empty,
    /// Nothing waits, and the producer has gone: nothing will ever come again.
    Closed,
}

pub struct MailboxView<T> {
    pub slot: Option<T>,
    pub closed: bool,
}

/// The state after a `put` of `item`, and its outcome: accepted only into an
/// empty slot of an open mailbox, otherwise handed back with nothing changed.
pub open spec fn put_result<T>(v: MailboxView<T>, item: T) -> (MailboxView<T>, Result<(), T>) {
    if v.slot is None && !v.closed {
        (MailboxView { slot: Some(item), closed: false }, Ok(()))
    } else {
        (v, Err(item))
    }
}

/// The state after a `try_take`, and what it finds.
pub open spec fn take_result<T>(v: MailboxView<T>) -> (MailboxView<T>, Received<T>) {
    match v.slot {
        Some(x) => (MailboxView { slot: None, closed: v.closed }, Received::Item(x)),
        None => (v, if v.closed {
            Received::Closed
        } else {
            Received::Empty
        }),
    }
}

/// The mailbox after the producer has released it.
pub open spec fn close_result<T>(v: MailboxView<T>) -> MailboxView<T> {
    MailboxView { slot: v.slot, closed: true }
}

pub struct Mailbox<T> {
    slot: Option<T>,
    closed: bool,
}

impl<T> View for Mailbox<T> {
    type V = MailboxView<T>;

    closed spec fn view(&self) -> MailboxView<T> {
        MailboxView { slot: self.slot, closed: self.closed }
    }
}

impl<T> Mailbox<T> {
    /// An open mailbox with nothing in it.
    pub fn new() -> (r: Self)
        ensures
            r@ == (MailboxView::<T> { slot: None, closed: false }),
    {
        Mailbox { slot: None, closed: false }
    }

    /// Offers `item`; where the slot is taken or the mailbox is closed, the
    /// item comes back and the producer has to wait for a drain.
    pub fn put(&mut self, item: T) -> (r: Result<(), T>)
        ensures
            (final(self)@, r) == put_result(old(self)@, item),
    {
        if self.slot.is_none() && !self.closed {
            self.slot = Some(item);
            Ok(())
        } else {
            Err(item)
        }
    }

    /// Takes the waiting item, if any, without blocking.
    pub fn try_take(&mut self) -> (r: Received<T>)
        ensures
            (final(self)@, r) == take_result(old(self)@),
    {
        match self.slot.take() {
            Some(x) => Received::Item(x),
            None => if self.closed {
                Received::Closed
            } else {
                Received::Empty
            },
        }
    }

    /// Releases the producer's side: a waiting item can still be taken.
    pub fn close(&mut self)
        ensures
            final(self)@ == close_result(old(self)@),
    {
        self.closed = true;
    }

    /// Whether an item waits to be taken.
    pub fn is_full(&self) -> (r: bool)
        ensures
            r == self@.slot is Some,
    {
        self.slot.is_some()
    }

    /// Whether the producer has released the mailbox.
    pub fn is_closed(&self) -> (r: bool)
        ensures
            r == self@.closed,
    {
        self.closed
    }
}

/// What `n` successive `try_take` calls find, from state `v` on.
pub open spec fn takes<T>(v: MailboxView<T>, n: nat) -> Seq<Received<T>>
    decreases n,
{
    if n == 0 {
        Seq::empty()
    } else {
        seq![take_result(v).1] + takes(take_result(v).0, (n - 1) as nat)
    }
}

/// At most one item is ever in flight: once a `put` is accepted, a second one
/// is refused, and leaves the first item in place, until a `try_take` drains
/// it; then the second is accepted.
pub proof fn lemma_one_in_flight<T>(v: MailboxView<T>, first: T, second: T)
    requires
        v.slot is None,
        !v.closed,
    ensures
        put_result(v, first).1 is Ok,
        put_result(put_result(v, first).0, second) == (put_result(v, first).0, Err::<(), T>(second)),
        take_result(put_result(v, first).0).1 == Received::Item(first),
        put_result(take_result(put_result(v, first).0).0, second).1 is Ok,
{
}

/// Once the producer has gone, the consumer takes the item that still waits,
/// if any, and from then on every look finds `Closed`, forever.
pub proof fn lemma_closed_forever<T>(v: MailboxView<T>, n: nat)
    requires
        v.closed,
    ensures
        takes(v, n).len() == n,
        forall|i: int|
            0 <= i < n && (i > 0 || v.slot is None) ==> #[trigger] takes(v, n)[i]
                == Received::<T>::Closed,
        n > 0 && v.slot is Some ==> takes(v, n)[0] == Received::Item(v.slot->0),
    decreases n,
{
    if n > 0 {
        let next = take_result(v).0;
        lemma_closed_forever(next, (n - 1) as nat);
        assert(takes(v, n) == seq![take_result(v).1] + takes(next, (n - 1) as nat));
        assert forall|i: int|
            0 <= i < n && (i > 0 || v.slot is None) implies #[trigger] takes(v, n)[i]
                == Received::<T>::Closed by {
            if i > 0 {
                assert(takes(v, n)[i] == takes(next, (n - 1) as nat)[i - 1]);
            }
        }
    }
}

} // verus!

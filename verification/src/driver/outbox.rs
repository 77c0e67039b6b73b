//! What a routine's context records into, behind the outbox's lock: the
//! effects recorded since the last poll, and the mailbox. Effects and
//! mailbox sit together because every operation touches one or both, and
//! reading them together is what lets a poll's effects and its count of open
//! requests agree.

use crate::boundary::codec::DecodeError;
use crate::driver::mail::{
    close_spec, collect_spec, deliver_spec, mail_wf, Delivery, Mail, MailView, SlotView,
};
use crate::keyed::key_index;
use crate::reply::{handle::ReplyHandle, value::Value};
use vstd::prelude::*;

verus! {

/// The effects recorded since the last poll, and the mailbox.
pub struct Inner<E> {
    effects: Vec<E>,
    mail: Mail,
}

impl<E> View for Inner<E> {
    type V = (Seq<E>, MailView);

    closed spec fn view(&self) -> (Seq<E>, MailView) {
        (self.effects@, self.mail@)
    }
}

impl<E> Inner<E> {
    /// Nothing recorded, and an empty mailbox for driver number `driver`.
    pub fn new(driver: u64) -> (inner: Self)
        ensures
            inner@.0 == Seq::<E>::empty(),
            inner@.1.driver == driver,
            inner@.1.slots == Seq::<SlotView>::empty(),
            inner@.1.closed == Seq::<u64>::empty(),
            inner@.1.next == 1,
            mail_wf(inner@.1),
    {
        let inner = Inner { effects: Vec::new(), mail: Mail::new(driver) };
        proof {
            assert(inner@.0 =~= Seq::<E>::empty());
        }
        inner
    }

    /// The number of the driver whose mailbox this is.
    pub fn driver(&self) -> (driver: u64)
        ensures
            driver == self@.1.driver,
    {
        self.mail.driver()
    }

    /// Whether another request id can be minted.
    pub fn can_mint(&self) -> (b: bool)
        ensures
            b == (self@.1.next < u64::MAX),
    {
        self.mail.can_mint()
    }

    /// Record a fire-and-forget effect.
    pub fn tell(&mut self, effect: E)
        ensures
            final(self)@ == (old(self)@.0.push(effect), old(self)@.1),
    {
        self.effects.push(effect);
    }

    /// Recording a request: the next id, as a handle for its reply.
    pub fn mint<T>(&mut self) -> (h: ReplyHandle<T>)
        requires
            old(self)@.1.next < u64::MAX,
        ensures
            h.driver_spec() == old(self)@.1.driver,
            h.id_spec() == old(self)@.1.next,
            final(self)@ == (old(self)@.0, MailView { next: (old(self)@.1.next + 1) as u64, ..old(self)@.1 }),
            mail_wf(old(self)@.1) ==> mail_wf(final(self)@.1),
    {
        self.mail.mint()
    }

    /// Recording a request: open its slot and record its effect, together.
    pub fn open(&mut self, id: u64, effect: E)
        ensures
            final(self)@ == (
                old(self)@.0.push(effect),
                MailView { slots: old(self)@.1.slots.push((id, None)), ..old(self)@.1 },
            ),
            mail_wf(old(self)@.1) && 1 <= id < old(self)@.1.next && key_index(old(self)@.1.slots, id) < 0
                ==> mail_wf(final(self)@.1),
    {
        self.mail.open(id);
        self.effects.push(effect);
    }

    /// A later poll of a request: its reply, if the host has delivered one.
    pub fn collect(&mut self, id: u64) -> (reply: Option<Value>)
        ensures
            (reply, final(self)@.1) == collect_spec(old(self)@.1, id),
            final(self)@.0 == old(self)@.0,
            mail_wf(old(self)@.1) ==> mail_wf(final(self)@.1),
    {
        self.mail.collect(id)
    }

    /// The request was dropped after it was recorded.
    pub fn close(&mut self, id: u64)
        ensures
            final(self)@.1 == close_spec(old(self)@.1, id),
            final(self)@.0 == old(self)@.0,
            mail_wf(old(self)@.1) ==> mail_wf(final(self)@.1),
    {
        self.mail.close(id);
    }

    /// The host replied. `false` if nothing awaits the handle any more.
    pub fn deliver<T>(&mut self, reply: ReplyHandle<T>, value: Value) -> (delivered: bool)
        requires
            reply.driver_spec() == old(self)@.1.driver,
        ensures
            (delivered, final(self)@.1) == deliver_spec(old(self)@.1, reply.id_spec(), value),
            final(self)@.0 == old(self)@.0,
            mail_wf(old(self)@.1) ==> mail_wf(final(self)@.1),
    {
        self.mail.deliver(reply, value)
    }

    /// The host offered a reply: delivered, discarded because nothing awaits
    /// it, or refused as an invalid answer by `verdict`.
    pub fn offer<T>(&mut self, reply: ReplyHandle<T>, value: Value, verdict: Result<(), DecodeError>) -> (d: Delivery<T>)
        requires
            reply.driver_spec() == old(self)@.1.driver,
        ensures
            key_index(old(self)@.1.slots, reply.id_spec()) < 0 ==> d is Gone && final(self)@
                == old(self)@,
            key_index(old(self)@.1.slots, reply.id_spec()) >= 0 && verdict is Err ==> (d matches Delivery::Refused(h, e) && h.id_spec() == reply.id_spec()
                && h.driver_spec() == reply.driver_spec() && verdict == Err::<(), DecodeError>(e))
                && final(self)@ == old(self)@,
            key_index(old(self)@.1.slots, reply.id_spec()) >= 0 && verdict is Ok ==> d is Delivered
                && final(self)@ == (old(self)@.0, deliver_spec(old(self)@.1, reply.id_spec(), value).1),
            mail_wf(old(self)@.1) ==> mail_wf(final(self)@.1),
    {
        self.mail.offer(reply, value, verdict)
    }

    /// Everything recorded since the last poll, and how many requests are
    /// still open — read together so the two agree.
    pub fn drain(&mut self) -> (drained: (Vec<E>, usize))
        ensures
            drained.0@ == old(self)@.0,
            drained.1 == old(self)@.1.slots.len(),
            final(self)@ == (Seq::<E>::empty(), old(self)@.1),
    {
        let mut effects = Vec::new();
        core::mem::swap(&mut self.effects, &mut effects);
        let outstanding = self.mail.outstanding();
        proof {
            assert(self@.0 =~= Seq::<E>::empty());
        }
        (effects, outstanding)
    }

    /// The ids closed since the last call.
    pub fn take_closed(&mut self) -> (closed: Vec<u64>)
        ensures
            closed@ == old(self)@.1.closed,
            final(self)@ == (old(self)@.0, MailView { closed: Seq::<u64>::empty(), ..old(self)@.1 }),
    {
        self.mail.take_closed()
    }
}

} // verus!

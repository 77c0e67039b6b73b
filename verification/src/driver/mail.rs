//! The mailbox: one slot per outstanding request.
//!
//! A slot exists from the request's first poll until the routine takes its
//! value or drops the request; slots closed by a drop are remembered in
//! `closed` until a host asks, so that a host keeping its own table of handles
//! can forget them too.
//!
//! Values are stored as [`Value`] — the closed menu — not type-erased. The
//! slot records no kind: only a [`ReplyHandle<T>`] minted for it can deliver,
//! and that handle's `T` is the proof.

use crate::keyed::{key_index, lemma_key_index, lemma_key_index_update, swap_removed};
use crate::boundary::codec::DecodeError;
use crate::reply::{handle::ReplyHandle, value::Value};
use vstd::prelude::*;

verus! {

/// What became of a reply offered to the mailbox.
pub enum Delivery<T> {
    /// Stored for the routine's next poll of the request.
    Delivered,
    /// Nothing awaits the request any more: the reply is discarded.
    Gone,
    /// The reply is not a valid answer to the request: the handle comes
    /// back with the reason, and the request stays open for a good reply.
    Refused(ReplyHandle<T>, DecodeError),
}

/// One open slot: the request id, and the reply if the host has sent it.
pub type SlotView = (u64, Option<Value>);

/// What a mailbox holds: the number of the driver it belongs to, its open
/// slots in storage order, the ids closed since a host last asked, and the
/// next id to mint.
pub struct MailView {
    pub driver: u64,
    pub slots: Seq<SlotView>,
    pub closed: Seq<u64>,
    pub next: u64,
}

/// The ids of the open slots.
pub open spec fn slot_ids(slots: Seq<SlotView>) -> Seq<u64> {
    slots.map_values(|s: SlotView| s.0)
}

/// A mailbox in which every open id was minted by it, and no id is open
/// twice.
pub open spec fn mail_wf(m: MailView) -> bool {
    &&& m.next >= 1
    &&& forall|i: int| 0 <= i < m.slots.len() ==> 1 <= #[trigger] m.slots[i].0 < m.next
    &&& forall|i: int, j: int|
        0 <= i < j < m.slots.len() ==> #[trigger] m.slots[i].0 != #[trigger] m.slots[j].0
}

/// The host delivers `value` for request `id`: whether a request was waiting,
/// and the mailbox after.
pub open spec fn deliver_spec(m: MailView, id: u64, value: Value) -> (bool, MailView) {
    let i = key_index(m.slots, id);
    if i >= 0 {
        (true, MailView { slots: m.slots.update(i, (id, Some(value))), ..m })
    } else {
        (false, m)
    }
}

/// The routine polls request `id`: its reply, if the host has delivered
/// one, and the mailbox after. Taking the reply closes the slot.
pub open spec fn collect_spec(m: MailView, id: u64) -> (Option<Value>, MailView) {
    let i = key_index(m.slots, id);
    if i >= 0 && m.slots[i].1 is Some {
        (m.slots[i].1, MailView { slots: swap_removed(m.slots, i), ..m })
    } else {
        (None, m)
    }
}

/// The routine drops request `id` unanswered: its slot goes, and its id is
/// kept to report.
pub open spec fn close_spec(m: MailView, id: u64) -> MailView {
    let i = key_index(m.slots, id);
    if i >= 0 {
        MailView { slots: swap_removed(m.slots, i), closed: m.closed.push(id), ..m }
    } else {
        m
    }
}

/// A reply delivered to a request that is waiting is exactly what the
/// routine's next poll of that request takes, and taking it closes the slot.
pub proof fn lemma_delivered_reply_is_collected(m: MailView, id: u64, value: Value)
    requires
        key_index(m.slots, id) >= 0,
    ensures
        deliver_spec(m, id, value).0,
        collect_spec(deliver_spec(m, id, value).1, id).0 == Some(value),
        collect_spec(deliver_spec(m, id, value).1, id).1.slots.len() == m.slots.len() - 1,
{
    let i = key_index(m.slots, id);
    lemma_key_index(m.slots, id);
    lemma_key_index_update(m.slots, i, Some(value), id);
}

/// Once the routine has dropped a request, a late reply to it is discarded:
/// nothing is waiting, and the mailbox does not change. The drop is reported
/// once, in the closed ids.
pub proof fn lemma_late_reply_is_discarded(m: MailView, id: u64, value: Value)
    requires
        mail_wf(m),
        key_index(m.slots, id) >= 0,
    ensures
        close_spec(m, id).closed == m.closed.push(id),
        mail_wf(close_spec(m, id)),
        !deliver_spec(close_spec(m, id), id, value).0,
        deliver_spec(close_spec(m, id), id, value).1 == close_spec(m, id),
{
    let i = key_index(m.slots, id);
    lemma_key_index(m.slots, id);
    let after = close_spec(m, id);
    lemma_swap_removed_wf(m, i);
    lemma_key_index(after.slots, id);
    if key_index(after.slots, id) >= 0 {
        let k = key_index(after.slots, id);
        if k == i {
            assert(after.slots[k] == m.slots.last());
            assert(m.slots[m.slots.len() - 1].0 != m.slots[i].0);
        } else {
            assert(after.slots[k] == m.slots[k]);
            if k < i {
                assert(m.slots[k].0 != m.slots[i].0);
            } else {
                assert(m.slots[i].0 != m.slots[k].0);
            }
        }
    }
}

/// Replies to two different requests may arrive in either order: each
/// reaches its own request or neither, and the mailbox ends the same.
pub proof fn lemma_replies_commute(m: MailView, a: u64, va: Value, b: u64, vb: Value)
    requires
        a != b,
    ensures
        deliver_spec(deliver_spec(m, a, va).1, b, vb).0 == deliver_spec(m, b, vb).0,
        deliver_spec(deliver_spec(m, b, vb).1, a, va).0 == deliver_spec(m, a, va).0,
        deliver_spec(deliver_spec(m, a, va).1, b, vb).1 == deliver_spec(
            deliver_spec(m, b, vb).1,
            a,
            va,
        ).1,
{
    let ia = key_index(m.slots, a);
    let ib = key_index(m.slots, b);
    lemma_key_index(m.slots, a);
    lemma_key_index(m.slots, b);
    if ia >= 0 {
        lemma_key_index_update(m.slots, ia, Some(va), b);
    }
    if ib >= 0 {
        lemma_key_index_update(m.slots, ib, Some(vb), a);
    }
    if ia >= 0 && ib >= 0 {
        assert(ia != ib);
        assert(m.slots.update(ia, (a, Some(va))).update(ib, (b, Some(vb))) =~= m.slots.update(
            ib,
            (b, Some(vb)),
        ).update(ia, (a, Some(va))));
    }
}

/// Removing a slot keeps the mailbox well-formed.
proof fn lemma_swap_removed_wf(m: MailView, i: int)
    requires
        mail_wf(m),
        0 <= i < m.slots.len(),
    ensures
        mail_wf(MailView { slots: swap_removed(m.slots, i), ..m }),
        mail_wf(MailView { slots: swap_removed(m.slots, i), closed: m.closed.push(m.slots[i].0), ..m }),
{
    let s = swap_removed(m.slots, i);
    let n = m.slots.len();
    assert forall|a: int| 0 <= a < s.len() implies #[trigger] s[a] == (if a == i { m.slots[n - 1] } else { m.slots[a] }) by {}
    assert forall|a: int, b: int| 0 <= a < b < s.len() implies #[trigger] s[a].0 != #[trigger] s[b].0 by {
        let ia = if a == i { n - 1 } else { a };
        let ib = if b == i { n - 1 } else { b };
        assert(s[a] == m.slots[ia]);
        assert(s[b] == m.slots[ib]);
        assert(ia != ib);
        if ia < ib {
            assert(m.slots[ia].0 != m.slots[ib].0);
        } else {
            assert(m.slots[ib].0 != m.slots[ia].0);
        }
    }
}

/// Replacing a reply keeps the mailbox well-formed.
proof fn lemma_update_wf(m: MailView, i: int, v: Option<Value>)
    requires
        mail_wf(m),
        0 <= i < m.slots.len(),
    ensures
        mail_wf(MailView { slots: m.slots.update(i, (m.slots[i].0, v)), ..m }),
{
    let s = m.slots.update(i, (m.slots[i].0, v));
    assert forall|a: int| 0 <= a < s.len() implies #[trigger] s[a].0 == m.slots[a].0 by {}
    assert forall|a: int, b: int| 0 <= a < b < s.len() implies #[trigger] s[a].0 != #[trigger] s[b].0 by {
        assert(s[a].0 == m.slots[a].0);
        assert(s[b].0 == m.slots[b].0);
    }
}

struct Slot {
    id: u64,
    value: Option<Value>,
}

/// The mailbox of one driver.
pub struct Mail {
    driver: u64,
    /// Open slots by id. A `Vec` scanned linearly: a routine has one or two
    /// requests in flight.
    slots: Vec<Slot>,
    closed: Vec<u64>,
    next: u64,
}

impl View for Mail {
    type V = MailView;

    closed spec fn view(&self) -> MailView {
        MailView {
            driver: self.driver,
            slots: self.slots@.map_values(|s: Slot| (s.id, s.value)),
            closed: self.closed@,
            next: self.next,
        }
    }
}

impl Mail {
    /// An empty mailbox for driver number `driver`; the first id it mints is
    /// 1.
    pub fn new(driver: u64) -> (m: Self)
        ensures
            m@.driver == driver,
            m@.slots == Seq::<SlotView>::empty(),
            m@.closed == Seq::<u64>::empty(),
            m@.next == 1,
            mail_wf(m@),
    {
        let m = Mail { driver, slots: Vec::new(), closed: Vec::new(), next: 1 };
        proof {
            assert(m@.slots =~= Seq::<SlotView>::empty());
        }
        m
    }

    /// The number of the driver this mailbox belongs to.
    pub fn driver(&self) -> (driver: u64)
        ensures
            driver == self@.driver,
    {
        self.driver
    }

    /// Whether another id can be minted: ids are `u64`s, and the last one
    /// is never issued.
    pub fn can_mint(&self) -> (b: bool)
        ensures
            b == (self@.next < u64::MAX),
    {
        self.next < u64::MAX
    }

    /// A fresh handle: the next id, in order, with no gaps. Its slot is not
    /// open yet: that happens when the request is recorded.
    pub fn mint<T>(&mut self) -> (h: ReplyHandle<T>)
        requires
            old(self)@.next < u64::MAX,
        ensures
            h.driver_spec() == old(self)@.driver,
            h.id_spec() == old(self)@.next,
            final(self)@ == (MailView { next: (old(self)@.next + 1) as u64, ..old(self)@ }),
            mail_wf(old(self)@) ==> mail_wf(final(self)@),
    {
        let id = self.next;
        self.next = self.next + 1;
        ReplyHandle::mint(self.driver, id)
    }

    /// Open the slot for request `id`.
    pub fn open(&mut self, id: u64)
        ensures
            final(self)@ == (MailView { slots: old(self)@.slots.push((id, None)), ..old(self)@ }),
            mail_wf(old(self)@) && 1 <= id < old(self)@.next && key_index(old(self)@.slots, id) < 0
                ==> mail_wf(final(self)@),
    {
        self.slots.push(Slot { id, value: None });
        proof {
            assert(self@.slots =~= old(self)@.slots.push((id, None)));
            if mail_wf(old(self)@) && 1 <= id < old(self)@.next && key_index(old(self)@.slots, id) < 0 {
                lemma_key_index(old(self)@.slots, id);
                let s = self@.slots;
                assert forall|a: int, b: int| 0 <= a < b < s.len() implies #[trigger] s[a].0 != #[trigger] s[b].0 by {
                    if b == s.len() - 1 {
                        assert(old(self)@.slots[a].0 != id);
                    } else {
                        assert(old(self)@.slots[a].0 != old(self)@.slots[b].0);
                    }
                }
            }
        }
    }

    /// Where the slot for `id` is, if it is open.
    fn position(&self, id: u64) -> (at: Option<usize>)
        ensures
            at is None <==> key_index(self@.slots, id) < 0,
            at matches Some(i) ==> i as int == key_index(self@.slots, id),
    {
        proof {
            lemma_key_index(self@.slots, id);
        }
        let len = self.slots.len();
        let mut i: usize = 0;
        while i < len
            invariant
                len == self.slots@.len(),
                self@.slots.len() == len,
                0 <= i <= len,
                forall|j: int| 0 <= j < i ==> #[trigger] self.slots@[j].id != id,
                -1 <= key_index(self@.slots, id) < len,
                key_index(self@.slots, id) >= 0 ==> self@.slots[key_index(self@.slots, id)].0
                    == id,
                forall|j: int|
                    0 <= j < len && (j < key_index(self@.slots, id) || key_index(self@.slots, id)
                        < 0) ==> #[trigger] self@.slots[j].0 != id,
            decreases len - i,
        {
            proof {
                assert(self@.slots[i as int].0 == self.slots@[i as int].id);
            }
            if self.slots[i].id == id {
                proof {
                    let k = key_index(self@.slots, id);
                    if k >= 0 && k < i {
                        assert(self@.slots[k].0 == self.slots@[k].id);
                    }
                }
                return Some(i);
            }
            i = i + 1;
        }
        proof {
            let k = key_index(self@.slots, id);
            if k >= 0 {
                assert(self@.slots[k].0 == self.slots@[k].id);
            }
        }
        None
    }

    /// The host replied through `reply`: `false` if no request with that id
    /// is waiting — it was already answered, or its future was dropped — and
    /// then the value is discarded. A handle minted by another driver is a
    /// host bug the caller rules out.
    pub fn deliver<T>(&mut self, reply: ReplyHandle<T>, value: Value) -> (delivered: bool)
        requires
            reply.driver_spec() == old(self)@.driver,
        ensures
            (delivered, final(self)@) == deliver_spec(old(self)@, reply.id_spec(), value),
            mail_wf(old(self)@) ==> mail_wf(final(self)@),
    {
        let (_driver, id) = reply.into_parts();
        proof {
            lemma_key_index(self@.slots, id);
        }
        match self.position(id) {
            Some(at) => {
                let ghost v = value;
                self.slots.set(at, Slot { id, value: Some(value) });
                proof {
                    lemma_key_index(old(self)@.slots, id);
                    assert(self@.slots =~= old(self)@.slots.update(at as int, (id, Some(v))));
                    if mail_wf(old(self)@) {
                        lemma_update_wf(old(self)@, at as int, Some(v));
                    }
                }
                true
            },
            None => false,
        }
    }

    /// The host offers `value` through `reply`; `verdict` is whether it is a
    /// valid answer to the request, as the request's own check found. A
    /// request no longer waiting discards it; an invalid answer is refused
    /// and changes nothing; a valid one is delivered.
    pub fn offer<T>(&mut self, reply: ReplyHandle<T>, value: Value, verdict: Result<(), DecodeError>) -> (d: Delivery<T>)
        requires
            reply.driver_spec() == old(self)@.driver,
        ensures
            key_index(old(self)@.slots, reply.id_spec()) < 0 ==> d is Gone && final(self)@
                == old(self)@,
            key_index(old(self)@.slots, reply.id_spec()) >= 0 && verdict is Err ==> (d matches Delivery::Refused(h, e) && h.id_spec() == reply.id_spec()
                && h.driver_spec() == reply.driver_spec() && verdict == Err::<(), DecodeError>(e))
                && final(self)@ == old(self)@,
            key_index(old(self)@.slots, reply.id_spec()) >= 0 && verdict is Ok ==> d is Delivered
                && final(self)@ == deliver_spec(old(self)@, reply.id_spec(), value).1,
            mail_wf(old(self)@) ==> mail_wf(final(self)@),
    {
        match self.position(reply.id()) {
            None => Delivery::Gone,
            Some(_) => match verdict {
                Err(e) => Delivery::Refused(reply, e),
                Ok(()) => {
                    let _ = self.deliver(reply, value);
                    Delivery::Delivered
                },
            },
        }
    }

    /// The routine polls request `id`: `Some(value)` takes the reply and
    /// closes the slot; `None` leaves it waiting.
    pub fn collect(&mut self, id: u64) -> (reply: Option<Value>)
        ensures
            (reply, final(self)@) == collect_spec(old(self)@, id),
            mail_wf(old(self)@) ==> mail_wf(final(self)@),
    {
        proof {
            lemma_key_index(self@.slots, id);
        }
        match self.position(id) {
            Some(at) => {
                proof {
                    assert(self@.slots[at as int] == (self.slots@[at as int].id, self.slots@[at as int].value));
                }
                if self.slots[at].value.is_some() {
                    let slot = self.slots.swap_remove(at);
                    proof {
                        assert(slot.value == old(self)@.slots[at as int].1);
                        assert(self@.slots =~= swap_removed(old(self)@.slots, at as int));
                        if mail_wf(old(self)@) {
                            lemma_swap_removed_wf(old(self)@, at as int);
                        }
                    }
                    slot.value
                } else {
                    None
                }
            },
            None => None,
        }
    }

    /// The routine dropped a recorded request. Its slot goes, and its id is
    /// kept to report.
    pub fn close(&mut self, id: u64)
        ensures
            final(self)@ == close_spec(old(self)@, id),
            mail_wf(old(self)@) ==> mail_wf(final(self)@),
    {
        proof {
            lemma_key_index(self@.slots, id);
        }
        match self.position(id) {
            Some(at) => {
                let _slot = self.slots.swap_remove(at);
                self.closed.push(id);
                proof {
                    assert(self@.closed == old(self)@.closed.push(id));
                    assert(self@.slots =~= swap_removed(old(self)@.slots, at as int));
                    if mail_wf(old(self)@) {
                        lemma_swap_removed_wf(old(self)@, at as int);
                    }
                }
            },
            None => {},
        }
    }

    /// The ids closed since the last call, in the order they were closed.
    pub fn take_closed(&mut self) -> (closed: Vec<u64>)
        ensures
            closed@ == old(self)@.closed,
            final(self)@ == (MailView { closed: Seq::<u64>::empty(), ..old(self)@ }),
    {
        let mut closed = Vec::new();
        core::mem::swap(&mut self.closed, &mut closed);
        proof {
            assert(self@.closed =~= Seq::<u64>::empty());
        }
        closed
    }

    /// How many requests are waiting for a reply.
    pub fn outstanding(&self) -> (n: usize)
        ensures
            n == self@.slots.len(),
    {
        self.slots.len()
    }
}

} // verus!

//! The requests a machine has outstanding, keyed by id: the host layer's
//! wallet of capabilities.
//!
//! The type check a Rust host gets from a typed handle at compile time
//! happens here at run time, against the kind the foreign host chose. The
//! table holds the handles the effects carried out, so that an `(id, value)`
//! from across the boundary can be turned back into the typed reply.

use crate::boundary::pending::Pending;
use crate::driver::Yield;
use crate::host::error::Error;
use crate::host::frames::Shown;
use crate::keyed::{distinct_keys, key_index, lemma_distinct_key_index, lemma_key_index, lemma_swap_removed_distinct, swap_removed};
use crate::reply::{handle::ReplyHandle, Reply};
use vstd::prelude::*;

verus! {

/// What a wallet holds: the outstanding requests by id, in storage order,
/// and the highest request id shown to the host.
pub struct WalletView {
    pub pending: Seq<(u64, Pending)>,
    pub highest_shown: u64,
}

/// A wallet in which each entry is keyed by its handle's id, every id was
/// shown, ids start at 1, and no id is held twice.
pub open spec fn wallet_wf(w: WalletView) -> bool {
    &&& distinct_keys(w.pending)
    &&& forall|i: int|
        0 <= i < w.pending.len() ==> 1 <= #[trigger] w.pending[i].0 <= w.highest_shown
            && w.pending[i].0 == w.pending[i].1.id_spec()
}

/// The host replies to request `id`: the handle it answers, or why not, and
/// the wallet after. Ids are issued per driver, increasing, so an id with no
/// entry at or below the highest shown was issued and is stale; any other
/// was never issued.
pub open spec fn take_spec(w: WalletView, id: u64, finished: bool) -> (
    Result<Pending, Error>,
    WalletView,
) {
    if finished {
        (Err(Error::Finished), w)
    } else {
        let i = key_index(w.pending, id);
        if i >= 0 {
            (Ok(w.pending[i].1), WalletView { pending: swap_removed(w.pending, i), ..w })
        } else if id != 0 && id <= w.highest_shown {
            (Err(Error::Stale { id }), w)
        } else {
            (Err(Error::BadInput), w)
        }
    }
}

/// The handles a batch of effects carries out, keyed by id, in order.
pub open spec fn added_entries<V>(split: Seq<(V, Option<Pending>)>) -> Seq<(u64, Pending)>
    decreases split.len(),
{
    if split.len() == 0 {
        Seq::empty()
    } else {
        let prev = added_entries(split.drop_last());
        match split.last().1 {
            Some(p) => prev.push((p.id_spec(), p)),
            None => prev,
        }
    }
}

/// The highest id shown once a batch has been shown.
pub open spec fn highest_after<V>(h: u64, split: Seq<(V, Option<Pending>)>) -> u64
    decreases split.len(),
{
    if split.len() == 0 {
        h
    } else {
        let prev = highest_after(h, split.drop_last());
        match split.last().1 {
            Some(p) => if p.id_spec() > prev {
                p.id_spec()
            } else {
                prev
            },
            None => prev,
        }
    }
}

/// Keeps the entries whose id is not among `closed`.
pub open spec fn not_closed(closed: Seq<u64>) -> spec_fn((u64, Pending)) -> bool {
    |e: (u64, Pending)| !closed.contains(e.0)
}

/// The wallet once a batch has been shown: its handles added, then the
/// handles of requests the routine abandoned forgotten.
pub open spec fn show_spec<V>(w: WalletView, split: Seq<(V, Option<Pending>)>, closed: Seq<u64>) -> WalletView {
    WalletView {
        pending: (w.pending + added_entries(split)).filter(not_closed(closed)),
        highest_shown: highest_after(w.highest_shown, split),
    }
}

/// A batch whose handles are new: ids above every id shown so far, in
/// increasing order — as a driver mints them.
pub open spec fn fresh<V>(h: u64, split: Seq<(V, Option<Pending>)>) -> bool {
    let a = added_entries(split);
    &&& forall|i: int| 0 <= i < a.len() ==> h < #[trigger] a[i].0
    &&& forall|i: int, j: int| 0 <= i < j < a.len() ==> #[trigger] a[i].0 < #[trigger] a[j].0
}

/// The table of outstanding requests.
pub struct Wallet {
    /// Outstanding requests by id.
    pending: Vec<(u64, Pending)>,
    /// The highest request id shown to the host.
    highest_shown: u64,
    /// Whether the routine has been begun.
    started: bool,
}

impl View for Wallet {
    type V = WalletView;

    closed spec fn view(&self) -> WalletView {
        WalletView { pending: self.pending@, highest_shown: self.highest_shown }
    }
}

impl Wallet {
    /// Whether the routine has been begun.
    pub closed spec fn started_spec(&self) -> bool {
        self.started
    }

    /// Begin the routine, once: [`Error::Finished`] if it has already
    /// returned, [`Error::BadInput`] if it was begun before. `finished` is
    /// whether the routine has returned.
    pub fn begin(&mut self, finished: bool) -> (r: Result<(), Error>)
        ensures
            r == (if finished {
                Err::<(), Error>(Error::Finished)
            } else if old(self).started_spec() {
                Err(Error::BadInput)
            } else {
                Ok(())
            }),
            final(self).started_spec() == (old(self).started_spec() || r is Ok),
            final(self)@ == old(self)@,
    {
        if finished {
            return Err(Error::Finished);
        }
        if self.started {
            return Err(Error::BadInput);
        }
        self.started = true;
        Ok(())
    }
}

/// Whether `id` is among `ids`.
fn contains_id(ids: &[u64], id: u64) -> (b: bool)
    ensures
        b == ids@.contains(id),
{
    let n = ids.len();
    let mut i: usize = 0;
    while i < n
        invariant
            n == ids@.len(),
            0 <= i <= n,
            forall|j: int| 0 <= j < i ==> ids@[j] != id,
        decreases n - i,
    {
        if ids[i] == id {
            return true;
        }
        i = i + 1;
    }
    false
}

/// One more entry of a sequence, filtered.
proof fn lemma_filter_step<A>(s: Seq<A>, k: int, pred: spec_fn(A) -> bool)
    requires
        0 <= k < s.len(),
    ensures
        s.take(k + 1).filter(pred) == (if pred(s[k]) {
            s.take(k).filter(pred).push(s[k])
        } else {
            s.take(k).filter(pred)
        }),
{
    reveal(Seq::filter);
    assert(s.take(k + 1).drop_last() =~= s.take(k));
}

/// Filtering keeps only entries of the sequence, and repeats no id.
proof fn lemma_filter_subset(s: Seq<(u64, Pending)>, pred: spec_fn((u64, Pending)) -> bool)
    ensures
        forall|i: int| 0 <= i < s.filter(pred).len() ==> s.contains(#[trigger] s.filter(pred)[i]),
        forall|i: int| 0 <= i < s.filter(pred).len() ==> pred(#[trigger] s.filter(pred)[i]),
        distinct_keys(s) ==> distinct_keys(s.filter(pred)),
    decreases s.len(),
{
    reveal(Seq::filter);
    if s.len() > 0 {
        let d = s.drop_last();
        lemma_filter_subset(d, pred);
        let f = s.filter(pred);
        let fd = d.filter(pred);
        assert forall|i: int| 0 <= i < f.len() implies s.contains(#[trigger] f[i]) && pred(f[i]) by {
            if i < fd.len() {
                assert(f[i] == fd[i]);
                assert(d.contains(fd[i]));
                let j = choose|j: int| 0 <= j < d.len() && d[j] == fd[i];
                assert(s[j] == d[j]);
            } else {
                assert(f[i] == s.last());
                assert(s[s.len() - 1] == s.last());
            }
        }
        if distinct_keys(s) {
            assert(distinct_keys(d)) by {
                assert forall|i: int, j: int| 0 <= i < j < d.len() implies #[trigger] d[i].0
                    != #[trigger] d[j].0 by {
                    assert(d[i] == s[i]);
                    assert(d[j] == s[j]);
                }
            }
            assert forall|i: int, j: int| 0 <= i < j < f.len() implies #[trigger] f[i].0
                != #[trigger] f[j].0 by {
                if j < fd.len() {
                    assert(f[i] == fd[i]);
                    assert(f[j] == fd[j]);
                } else {
                    assert(f[i] == fd[i]);
                    assert(d.contains(fd[i]));
                    let k = choose|k: int| 0 <= k < d.len() && d[k] == fd[i];
                    assert(s[k] == d[k]);
                    assert(f[j] == s[s.len() - 1]);
                    assert(s[k].0 != s[s.len() - 1].0);
                }
            }
        }
    }
}

/// The entries a batch adds are at most the highest id after it, and at
/// least one above the highest before it when the batch is fresh.
proof fn lemma_added_bounds<V>(h: u64, split: Seq<(V, Option<Pending>)>)
    ensures
        highest_after(h, split) >= h,
        forall|i: int|
            0 <= i < added_entries(split).len() ==> #[trigger] added_entries(split)[i].0
                <= highest_after(h, split) && added_entries(split)[i].0
                == added_entries(split)[i].1.id_spec(),
    decreases split.len(),
{
    if split.len() > 0 {
        let d = split.drop_last();
        lemma_added_bounds(h, d);
        let prev = added_entries(d);
        let a = added_entries(split);
        assert forall|i: int| 0 <= i < a.len() implies #[trigger] a[i].0 <= highest_after(h, split)
            && a[i].0 == a[i].1.id_spec() by {
            if i < prev.len() {
                assert(a[i] == prev[i]);
            }
        }
    }
}

impl Wallet {
    /// An empty table: nothing outstanding, nothing shown.
    pub fn new() -> (w: Self)
        ensures
            w@.pending == Seq::<(u64, Pending)>::empty(),
            w@.highest_shown == 0,
            !w.started_spec(),
            wallet_wf(w@),
    {
        let w = Wallet { pending: Vec::new(), highest_shown: 0, started: false };
        proof {
            assert(w@.pending =~= Seq::<(u64, Pending)>::empty());
        }
        w
    }

    /// Where the entry for `id` is, if there is one.
    fn position(&self, id: u64) -> (at: Option<usize>)
        ensures
            at is None <==> key_index(self@.pending, id) < 0,
            at matches Some(i) ==> i as int == key_index(self@.pending, id),
    {
        proof {
            lemma_key_index(self@.pending, id);
        }
        let len = self.pending.len();
        let mut i: usize = 0;
        while i < len
            invariant
                len == self.pending@.len(),
                0 <= i <= len,
                forall|j: int| 0 <= j < i ==> #[trigger] self.pending@[j].0 != id,
                -1 <= key_index(self@.pending, id) < len,
                key_index(self@.pending, id) >= 0 ==> self@.pending[key_index(self@.pending, id)].0
                    == id,
                forall|j: int|
                    0 <= j < len && (j < key_index(self@.pending, id) || key_index(self@.pending, id)
                        < 0) ==> #[trigger] self@.pending[j].0 != id,
            decreases len - i,
        {
            if self.pending[i].0 == id {
                proof {
                    let k = key_index(self@.pending, id);
                    if k >= 0 && k < i {
                        assert(self.pending@[k].0 == id);
                    }
                }
                return Some(i);
            }
            i = i + 1;
        }
        proof {
            let k = key_index(self@.pending, id);
            if k >= 0 {
                assert(self.pending@[k].0 == id);
            }
        }
        None
    }

    /// The handle for request `id`, taken out of the table; or why there is
    /// none — the routine has completed ([`Error::Finished`]), the id was
    /// issued and is no longer awaited ([`Error::Stale`]), or it was never
    /// issued ([`Error::BadInput`]). `finished` is whether the routine has
    /// returned.
    pub fn take(&mut self, id: u64, finished: bool) -> (r: Result<Pending, Error>)
        ensures
            (r, final(self)@) == take_spec(old(self)@, id, finished),
            final(self).started_spec() == old(self).started_spec(),
            wallet_wf(old(self)@) ==> wallet_wf(final(self)@),
    {
        if finished {
            return Err(Error::Finished);
        }
        proof {
            lemma_key_index(self@.pending, id);
        }
        match self.position(id) {
            Some(at) => {
                let (_, pending) = self.pending.swap_remove(at);
                proof {
                    assert(self@.pending =~= swap_removed(old(self)@.pending, at as int));
                    if wallet_wf(old(self)@) {
                        lemma_swap_removed_distinct(old(self)@.pending, at as int);
                    }
                }
                Ok(pending)
            },
            None => {
                if id != 0 && id <= self.highest_shown {
                    Err(Error::Stale { id })
                } else {
                    Err(Error::BadInput)
                }
            },
        }
    }

    /// The typed handle for request `id`, if the host replied with the kind
    /// it awaits: `value` comes back with it, to deliver. If it awaits another
    /// kind, the handle stays in the table — the host may retry with the
    /// right one — and the error names both kinds.
    pub fn claim<T: Reply>(&mut self, id: u64, value: T, finished: bool) -> (r: Result<
        (ReplyHandle<T>, T),
        Error,
    >)
        ensures
            match take_spec(old(self)@, id, finished) {
                (Err(e), _) => r == Err::<(ReplyHandle<T>, T), Error>(e) && final(self)@ == old(
                    self,
                )@,
                (Ok(p), after) => if p.kind_spec() == T::kind_spec() {
                    &&& r matches Ok((h, v)) && h.id_spec() == p.id_spec() && h.driver_spec()
                        == p.driver_spec() && v == value
                    &&& final(self)@ == after
                } else {
                    &&& r == Err::<(ReplyHandle<T>, T), Error>(
                        Error::WrongKind { id, expected: p.kind_spec(), got: T::kind_spec() },
                    )
                    &&& final(self)@ == (WalletView { pending: after.pending.push((id, p)), ..after })
                },
            },
            final(self).started_spec() == old(self).started_spec(),
            wallet_wf(old(self)@) ==> wallet_wf(final(self)@),
    {
        let pending = match self.take(id, finished) {
            Ok(p) => p,
            Err(e) => return Err(e),
        };
        let ghost p = pending;
        let ghost after = self@;
        match T::from_pending(pending) {
            Ok(reply) => Ok((reply, value)),
            Err(pending) => {
                let expected = pending.kind();
                proof {
                    T::lemma_round_trip(value);
                }
                let got = value.into_value().kind();
                self.pending.push((id, pending));
                proof {
                    if wallet_wf(old(self)@) {
                        let i = key_index(old(self)@.pending, id);
                        lemma_key_index(old(self)@.pending, id);
                        lemma_swap_removed_distinct(old(self)@.pending, i);
                        let s = self@.pending;
                        assert forall|a: int, b: int| 0 <= a < b < s.len() implies #[trigger] s[a].0
                            != #[trigger] s[b].0 by {
                            if b == s.len() - 1 {
                                lemma_key_index(after.pending, id);
                                assert(after.pending[a].0 != id);
                            } else {
                                assert(after.pending[a].0 != after.pending[b].0);
                            }
                        }
                        assert(old(self)@.pending[i].0 == id);
                    }
                }
                Err(Error::WrongKind { id, expected, got })
            },
        }
    }

    /// Split a batch into what the host sees and the handles the table
    /// keeps — and forget the handles of requests the routine dropped
    /// unanswered, so this table tracks the driver's. A request recorded and
    /// dropped in the same batch is both added and forgotten.
    pub fn show<V>(&mut self, split: Vec<(V, Option<Pending>)>, closed: Vec<u64>) -> (y: Yield<
        Shown<V>,
    >)
        ensures
            y@.1 == closed@,
            y@.0.len() == split@.len(),
            forall|i: int| 0 <= i < split@.len() ==> #[trigger] y@.0[i].view == split@[i].0,
            forall|i: int| 0 <= i < split@.len() ==> #[trigger] y@.0[i].awaits == (split@[i].1 is Some),
            final(self)@ == show_spec(old(self)@, split@, closed@),
            forall|i: int|
                0 <= i < final(self)@.pending.len() ==> !closed@.contains(
                    #[trigger] final(self)@.pending[i].0,
                ),
            final(self).started_spec() == old(self).started_spec(),
            wallet_wf(old(self)@) && fresh(old(self)@.highest_shown, split@) ==> wallet_wf(
                final(self)@,
            ),
    {
        let ghost orig = split@;
        let shown = self.add_batch(split);
        let ghost all = self@.pending;
        self.forget_closed(closed.as_slice());
        proof {
            lemma_filter_subset(all, not_closed(closed@));
            if wallet_wf(old(self)@) && fresh(old(self)@.highest_shown, orig) {
                lemma_show_wf(old(self)@, orig, closed@);
            }
        }
        Yield::new(shown, closed)
    }

    /// Add a batch's handles, in order, and the views the host sees.
    fn add_batch<V>(&mut self, split: Vec<(V, Option<Pending>)>) -> (shown: Vec<Shown<V>>)
        ensures
            shown@.len() == split@.len(),
            forall|i: int| 0 <= i < split@.len() ==> #[trigger] shown@[i].view == split@[i].0,
            forall|i: int| 0 <= i < split@.len() ==> #[trigger] shown@[i].awaits == (split@[i].1 is Some),
            final(self)@.pending == old(self)@.pending + added_entries(split@),
            final(self).started_spec() == old(self).started_spec(),
            final(self)@.highest_shown == highest_after(old(self)@.highest_shown, split@),
    {
        let ghost orig = split@;
        let mut reversed = reversed(split);
        let mut shown: Vec<Shown<V>> = Vec::new();
        proof {
            assert(orig.take(0) =~= Seq::<(V, Option<Pending>)>::empty());
            assert(self.pending@ =~= old(self)@.pending + added_entries(orig.take(0)));
        }
        while reversed.len() > 0
            invariant
                reversed@.len() + shown@.len() == orig.len(),
                forall|i: int|
                    0 <= i < reversed@.len() ==> #[trigger] reversed@[i] == orig[orig.len() - 1 - i],
                forall|i: int| 0 <= i < shown@.len() ==> #[trigger] shown@[i].view == orig[i].0,
                forall|i: int| 0 <= i < shown@.len() ==> #[trigger] shown@[i].awaits == (orig[i].1 is Some),
                self.pending@ == old(self)@.pending + added_entries(orig.take(shown@.len() as int)),
                self.highest_shown == highest_after(old(self)@.highest_shown, orig.take(shown@.len() as int)),
                self.started == old(self).started,
            decreases reversed@.len(),
        {
            let ghost k = shown@.len() as int;
            proof {
                assert(reversed@[reversed@.len() - 1] == orig[k]);
            }
            let (view, pending) = reversed.pop().unwrap();
            let awaits = pending.is_some();
            proof {
                assert(orig.take(k + 1).drop_last() =~= orig.take(k));
                assert(orig.take(k + 1).last() == orig[k]);
            }
            match pending {
                Some(p) => {
                    let id = p.id();
                    if id > self.highest_shown {
                        self.highest_shown = id;
                    }
                    self.pending.push((id, p));
                },
                None => {},
            }
            let ghost before = shown@;
            shown.push(Shown { view, awaits });
            proof {
                assert(shown@[k].view == orig[k].0);
                assert(shown@[k].awaits == orig[k].1 is Some);
                assert forall|i: int| 0 <= i < k implies shown@[i] == before[i] by {}
                assert(self.pending@ =~= old(self)@.pending + added_entries(orig.take(k + 1)));
            }
        }
        proof {
            assert(orig.take(orig.len() as int) =~= orig);
        }
        shown
    }

    /// Forget every handle whose id is among `closed`, keeping the rest in
    /// order.
    fn forget_closed(&mut self, closed: &[u64])
        ensures
            final(self)@.pending == old(self)@.pending.filter(not_closed(closed@)),
            final(self)@.highest_shown == old(self)@.highest_shown,
            final(self).started_spec() == old(self).started_spec(),
    {
        let ghost all = self.pending@;
        let mut gathered: Vec<(u64, Pending)> = Vec::new();
        core::mem::swap(&mut self.pending, &mut gathered);
        let mut backwards = reversed(gathered);
        let ghost pred = not_closed(closed@);
        let mut kept: Vec<(u64, Pending)> = Vec::new();
        proof {
            reveal(Seq::filter);
            assert(all.take(0) =~= Seq::<(u64, Pending)>::empty());
        }
        while backwards.len() > 0
            invariant
                backwards@.len() <= all.len(),
                forall|i: int|
                    0 <= i < backwards@.len() ==> #[trigger] backwards@[i] == all[all.len() - 1 - i],
                kept@ == all.take(all.len() - backwards@.len()).filter(pred),
                pred == not_closed(closed@),
            decreases backwards@.len(),
        {
            let ghost k = all.len() - backwards@.len();
            proof {
                assert(backwards@[backwards@.len() - 1] == all[k]);
            }
            let entry = backwards.pop().unwrap();
            proof {
                lemma_filter_step(all, k, pred);
            }
            if !contains_id(closed, entry.0) {
                kept.push(entry);
            }
        }
        proof {
            assert(all.take(all.len() as int) =~= all);
        }
        self.pending = kept;
    }
}

/// The elements of `v`, last first.
fn reversed<T>(v: Vec<T>) -> (r: Vec<T>)
    ensures
        r@.len() == v@.len(),
        forall|i: int| 0 <= i < r@.len() ==> #[trigger] r@[i] == v@[v@.len() - 1 - i],
{
    let ghost orig = v@;
    let mut rest = v;
    let mut out: Vec<T> = Vec::new();
    while rest.len() > 0
        invariant
            rest@.len() + out@.len() == orig.len(),
            forall|i: int| 0 <= i < rest@.len() ==> #[trigger] rest@[i] == orig[i],
            forall|i: int| 0 <= i < out@.len() ==> #[trigger] out@[i] == orig[orig.len() - 1 - i],
        decreases rest@.len(),
    {
        let x = rest.pop().unwrap();
        out.push(x);
    }
    out
}

/// Showing a fresh batch keeps the wallet well-formed.
proof fn lemma_show_wf<V>(w: WalletView, split: Seq<(V, Option<Pending>)>, closed: Seq<u64>)
    requires
        wallet_wf(w),
        fresh(w.highest_shown, split),
    ensures
        wallet_wf(show_spec(w, split, closed)),
{
    let a = added_entries(split);
    let all = w.pending + a;
    let pred = not_closed(closed);
    let h = highest_after(w.highest_shown, split);
    lemma_added_bounds(w.highest_shown, split);
    assert(distinct_keys(all)) by {
        assert forall|i: int, j: int| 0 <= i < j < all.len() implies #[trigger] all[i].0
            != #[trigger] all[j].0 by {
            let n = w.pending.len();
            if j < n {
                assert(w.pending[i].0 != w.pending[j].0);
            } else if i < n {
                assert(all[j] == a[j - n]);
                assert(w.pending[i].0 <= w.highest_shown);
            } else {
                assert(all[i] == a[i - n]);
                assert(all[j] == a[j - n]);
            }
        }
    }
    lemma_filter_subset(all, pred);
    let f = all.filter(pred);
    assert forall|i: int| 0 <= i < f.len() implies 1 <= #[trigger] f[i].0 <= h && f[i].0
        == f[i].1.id_spec() by {
        assert(all.contains(f[i]));
        let j = choose|j: int| 0 <= j < all.len() && all[j] == f[i];
        let n = w.pending.len();
        if j < n {
            assert(all[j] == w.pending[j]);
        } else {
            assert(all[j] == a[j - n]);
        }
    }
}

/// A handle a batch carries out is among the entries it adds.
proof fn lemma_added_contains<V>(split: Seq<(V, Option<Pending>)>, k: int) -> (j: int)
    requires
        0 <= k < split.len(),
        split[k].1 is Some,
    ensures
        0 <= j < added_entries(split).len(),
        added_entries(split)[j] == (split[k].1->Some_0.id_spec(), split[k].1->Some_0),
    decreases split.len(),
{
    let d = split.drop_last();
    if k == split.len() - 1 {
        added_entries(d).len() as int
    } else {
        assert(d[k] == split[k]);
        let j = lemma_added_contains(d, k);
        assert(added_entries(split)[j] == added_entries(d)[j]);
        j
    }
}

/// A request shown to the host is answered through its id: unless the
/// routine abandoned it, the table gives back the very handle the effect
/// carried out; if it did, a reply to it is stale.
pub proof fn lemma_shown_request_is_answered<V>(
    w: WalletView,
    split: Seq<(V, Option<Pending>)>,
    closed: Seq<u64>,
    k: int,
)
    requires
        wallet_wf(w),
        fresh(w.highest_shown, split),
        0 <= k < split.len(),
        split[k].1 is Some,
    ensures
        ({
            let p = split[k].1->Some_0;
            let after = show_spec(w, split, closed);
            take_spec(after, p.id_spec(), false).0 == if closed.contains(p.id_spec()) {
                Err::<Pending, Error>(Error::Stale { id: p.id_spec() })
            } else {
                Ok(p)
            }
        }),
{
    let p = split[k].1->Some_0;
    let id = p.id_spec();
    let a = added_entries(split);
    let all = w.pending + a;
    let pred = not_closed(closed);
    let after = show_spec(w, split, closed);
    let f = after.pending;
    let j = lemma_added_contains(split, k);
    let n = w.pending.len() as int;
    assert(all[n + j] == (id, p));
    lemma_show_wf(w, split, closed);
    lemma_filter_subset(all, pred);
    lemma_added_bounds(w.highest_shown, split);
    lemma_key_index(f, id);
    let i = key_index(f, id);
    if closed.contains(id) {
        if i >= 0 {
            assert(pred(f[i]));
        }
        assert(w.highest_shown < a[j].0);
        assert(a[j].0 <= highest_after(w.highest_shown, split));
    } else {
        all.lemma_filter_contains(pred, n + j);
        assert(f.contains((id, p)));
        let m = choose|m: int| 0 <= m < f.len() && f[m] == (id, p);
        assert(f[m].0 == id);
        if i != m {
            if i < m {
                assert(f[i].0 != f[m].0);
            } else {
                assert(f[m].0 != f[i].0);
            }
        }
    }
}

/// A second reply to a request already answered is stale: the table forgot
/// its handle when the first was taken.
pub proof fn lemma_second_reply_is_stale(w: WalletView, id: u64)
    requires
        wallet_wf(w),
        key_index(w.pending, id) >= 0,
    ensures
        take_spec(w, id, false).0 is Ok,
        take_spec(take_spec(w, id, false).1, id, false).0 == Err::<Pending, Error>(
            Error::Stale { id },
        ),
{
    let i = key_index(w.pending, id);
    lemma_key_index(w.pending, id);
    lemma_swap_removed_distinct(w.pending, i);
}

/// A reply of the wrong kind leaves the request outstanding: once the
/// handle is put back, a reply to the same id finds it again.
pub proof fn lemma_wrong_kind_keeps_request(w: WalletView, id: u64)
    requires
        wallet_wf(w),
        key_index(w.pending, id) >= 0,
    ensures
        ({
            let (taken, after) = take_spec(w, id, false);
            let back = WalletView { pending: after.pending.push((id, taken->Ok_0)), ..after };
            take_spec(back, id, false).0 == taken
        }),
{
    let i = key_index(w.pending, id);
    lemma_key_index(w.pending, id);
    lemma_swap_removed_distinct(w.pending, i);
    let (taken, after) = take_spec(w, id, false);
    let back = WalletView { pending: after.pending.push((id, taken->Ok_0)), ..after };
    lemma_key_index(back.pending, id);
    lemma_key_index(after.pending, id);
    let k = key_index(back.pending, id);
    if k < back.pending.len() - 1 {
        assert(back.pending[k] == after.pending[k]);
    }
}

/// An id the host was never shown — `0`, or above the highest shown — is a
/// host bug, not a stale reply.
pub proof fn lemma_unissued_id_is_bad_input(w: WalletView, id: u64)
    requires
        wallet_wf(w),
        id == 0 || id > w.highest_shown,
    ensures
        take_spec(w, id, false).0 == Err::<Pending, Error>(Error::BadInput),
{
    lemma_key_index(w.pending, id);
    let i = key_index(w.pending, id);
    if i >= 0 {
        assert(1 <= w.pending[i].0 <= w.highest_shown);
    }
}

/// The host's view of a batch: each shown effect's view, in order.
pub fn views<V>(step: Yield<Shown<V>>) -> (y: Yield<V>)
    ensures
        y@.1 == step@.1,
        y@.0.len() == step@.0.len(),
        forall|i: int| 0 <= i < step@.0.len() ==> #[trigger] y@.0[i] == step@.0[i].view,
{
    step.map(|s: Shown<V>| -> (v: V)
        ensures
            v == s.view,
        { s.view })
}

} // verus!

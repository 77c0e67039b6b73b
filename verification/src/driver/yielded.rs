//! What one resume or reply yielded.

use vstd::prelude::*;

verus! {

/// What the routine yielded on one resume or reply: the effects it recorded
/// before its next wait, and the ids of requests it abandoned along the way.
///
/// A host whose effects cost something to perform — a timer, a network
/// request — reads [`closed`](Self::closed) and stops the work for those ids.
/// A closed id means the routine no longer needs the reply, not that the
/// effect did not happen.
#[must_use]
#[derive(Clone, Debug, Eq, PartialEq)]
pub struct Yield<T> {
    effects: Vec<T>,
    closed: Vec<u64>,
}

impl<T> View for Yield<T> {
    type V = (Seq<T>, Seq<u64>);

    closed spec fn view(&self) -> (Seq<T>, Seq<u64>) {
        (self.effects@, self.closed@)
    }
}

impl<T> Yield<T> {
    /// A yield from its parts.
    pub fn new(effects: Vec<T>, closed: Vec<u64>) -> (s: Self)
        ensures
            s@ == (effects@, closed@),
    {
        Yield { effects, closed }
    }

    /// The effects recorded, in order.
    pub fn effects(&self) -> (e: &[T])
        ensures
            e@ == self@.0,
    {
        self.effects.as_slice()
    }

    /// Ids of requests the routine abandoned unanswered. A reply to one is
    /// discarded.
    pub fn closed(&self) -> (c: &[u64])
        ensures
            c@ == self@.1,
    {
        self.closed.as_slice()
    }

    /// `true` if there are no effects and nothing was closed.
    pub fn is_empty(&self) -> (b: bool)
        ensures
            b == (self@.0.len() == 0 && self@.1.len() == 0),
    {
        self.effects.len() == 0 && self.closed.len() == 0
    }

    /// The effects and the closed ids.
    pub fn into_parts(self) -> (parts: (Vec<T>, Vec<u64>))
        ensures
            (parts.0@, parts.1@) == self@,
    {
        (self.effects, self.closed)
    }

    /// The same yield with each effect transformed, in order; the closed ids
    /// are kept.
    pub fn map<U, F: Fn(T) -> U>(self, f: F) -> (s: Yield<U>)
        requires
            forall|x: T| #[trigger] f.requires((x,)),
        ensures
            s@.1 == self@.1,
            s@.0.len() == self@.0.len(),
            forall|i: int| 0 <= i < self@.0.len() ==> f.ensures((self@.0[i],), #[trigger] s@.0[i]),
    {
        let ghost orig = self.effects@;
        let mut pending = self.effects;
        let mut reversed: Vec<T> = Vec::new();
        while pending.len() > 0
            invariant
                pending@.len() + reversed@.len() == orig.len(),
                forall|i: int| 0 <= i < pending@.len() ==> #[trigger] pending@[i] == orig[i],
                forall|i: int|
                    0 <= i < reversed@.len() ==> #[trigger] reversed@[i] == orig[orig.len() - 1 - i],
            decreases pending@.len(),
        {
            let x = pending.pop().unwrap();
            reversed.push(x);
        }
        let mut effects: Vec<U> = Vec::new();
        while reversed.len() > 0
            invariant
                reversed@.len() + effects@.len() == orig.len(),
                forall|x: T| #[trigger] f.requires((x,)),
                forall|i: int|
                    0 <= i < reversed@.len() ==> #[trigger] reversed@[i] == orig[orig.len() - 1 - i],
                forall|i: int| 0 <= i < effects@.len() ==> f.ensures((orig[i],), #[trigger] effects@[i]),
            decreases reversed@.len(),
        {
            let x = reversed.pop().unwrap();
            let y = f(x);
            effects.push(y);
        }
        Yield { effects, closed: self.closed }
    }
}

impl<T> Default for Yield<T> {
    fn default() -> (s: Self)
        ensures
            s@.0.len() == 0,
            s@.1.len() == 0,
    {
        Yield { effects: Vec::new(), closed: Vec::new() }
    }
}

} // verus!

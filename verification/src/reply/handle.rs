//! The capability to answer one request.

use core::marker::PhantomData;
use vstd::prelude::*;

verus! {

/// Evidence that a request for a `T` is outstanding, and the means to answer
/// it.
///
/// Minted by the mailbox when a request is recorded, consumed when the reply
/// is delivered. Not `Clone`, so it answers at most once. Nothing outside this
/// crate can construct one.
///
/// The [`id`](Self::id) is what crosses a wire — per driver, from 1; the type
/// keeps the answer honest on the Rust side; and the driver number says which
/// mailbox minted it, so a handle given to the wrong driver is a caught
/// mistake and not a delivery to whichever slot happens to share its id. Two
/// handles are equal when they address the same request of the same driver.
#[must_use]
#[derive(Debug, PartialEq, Eq)]
pub struct ReplyHandle<T> {
    driver: u64,
    id: u64,
    reply: PhantomData<T>,
}

impl<T> ReplyHandle<T> {
    /// The driver that minted this handle.
    pub closed spec fn driver_spec(&self) -> u64 {
        self.driver
    }

    /// The request this handle answers.
    pub closed spec fn id_spec(&self) -> u64 {
        self.id
    }

    /// A handle is its driver and its request: two with the same are the same.
    pub proof fn lemma_determined(a: Self, b: Self)
        requires
            a.driver_spec() == b.driver_spec(),
            a.id_spec() == b.id_spec(),
        ensures
            a == b,
    {
    }

    pub(crate) fn mint(driver: u64, id: u64) -> (h: Self)
        ensures
            h.driver_spec() == driver,
            h.id_spec() == id,
    {
        ReplyHandle { driver, id, reply: PhantomData }
    }

    /// The request id, unique within the driver that minted this handle.
    pub fn id(&self) -> (id: u64)
        ensures
            id == self.id_spec(),
    {
        self.id
    }

    /// The number of the driver that minted this handle: a reply goes to
    /// that driver and no other.
    pub fn driver(&self) -> (driver: u64)
        ensures
            driver == self.driver_spec(),
    {
        self.driver
    }

    /// The same handle, typed as another form of its answer — its wire kind,
    /// for the host layer's table.
    pub(crate) fn retype<U>(self) -> (h: ReplyHandle<U>)
        ensures
            h.driver_spec() == self.driver_spec(),
            h.id_spec() == self.id_spec(),
    {
        ReplyHandle::mint(self.driver, self.id)
    }

    /// Consume the handle: which driver minted it, and which request.
    pub(crate) fn into_parts(self) -> (parts: (u64, u64))
        ensures
            parts == (self.driver_spec(), self.id_spec()),
    {
        (self.driver, self.id)
    }
}

} // verus!

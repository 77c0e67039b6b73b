//! An outstanding request, by the kind of reply it takes.

use crate::reply::handle::ReplyHandle;
use crate::reply::kind::Kind;
use vstd::prelude::*;

verus! {

/// One variant per entry of the menu; a host replies with the matching kind,
/// and the host layer type-checks it here.
#[derive(Debug, PartialEq, Eq)]
pub enum Pending {
    /// Awaits [`Value::Bytes`](crate::reply::value::Value::Bytes).
    Bytes(ReplyHandle<Vec<u8>>),
    /// Awaits [`Value::Str`](crate::reply::value::Value::Str).
    Str(ReplyHandle<String>),
    /// Awaits [`Value::U64`](crate::reply::value::Value::U64).
    U64(ReplyHandle<u64>),
    /// Awaits [`Value::Unit`](crate::reply::value::Value::Unit).
    Unit(ReplyHandle<()>),
}

impl Pending {
    /// The request id of the handle inside.
    pub open spec fn id_spec(&self) -> u64 {
        match self {
            Pending::Bytes(r) => r.id_spec(),
            Pending::Str(r) => r.id_spec(),
            Pending::U64(r) => r.id_spec(),
            Pending::Unit(r) => r.id_spec(),
        }
    }

    /// The driver that minted the handle inside.
    pub open spec fn driver_spec(&self) -> u64 {
        match self {
            Pending::Bytes(r) => r.driver_spec(),
            Pending::Str(r) => r.driver_spec(),
            Pending::U64(r) => r.driver_spec(),
            Pending::Unit(r) => r.driver_spec(),
        }
    }

    /// Which entry of the menu the request awaits.
    pub open spec fn kind_spec(&self) -> Kind {
        match self {
            Pending::Bytes(_) => Kind::Bytes,
            Pending::Str(_) => Kind::Str,
            Pending::U64(_) => Kind::U64,
            Pending::Unit(_) => Kind::Unit,
        }
    }

    /// The request id of the handle inside.
    pub fn id(&self) -> (id: u64)
        ensures
            id == self.id_spec(),
    {
        match self {
            Pending::Bytes(r) => r.id(),
            Pending::Str(r) => r.id(),
            Pending::U64(r) => r.id(),
            Pending::Unit(r) => r.id(),
        }
    }

    /// Which entry of the menu the request awaits.
    pub fn kind(&self) -> (k: Kind)
        ensures
            k == self.kind_spec(),
    {
        match self {
            Pending::Bytes(_) => Kind::Bytes,
            Pending::Str(_) => Kind::Str,
            Pending::U64(_) => Kind::U64,
            Pending::Unit(_) => Kind::Unit,
        }
    }
}

} // verus!

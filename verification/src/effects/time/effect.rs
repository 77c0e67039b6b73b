//! What a sleep records under a reifying context.

use crate::boundary::codec::{le_u64, read_u64, Decode, DecodeError, Encode, Reader, Writer};
use crate::effects::{ask, request};
use vstd::prelude::*;

verus! {

/// Wake after a duration, held as whole seconds and the nanoseconds past
/// them. Awaits `unit`.
#[derive(Clone, Copy, Debug, PartialEq, Eq, Structural)]
pub struct Sleep {
    /// Whole seconds.
    pub secs: u64,
    /// Nanoseconds past the whole seconds.
    pub nanos: u32,
}

impl View for Sleep {
    type V = Sleep;

    open spec fn view(&self) -> Sleep {
        *self
    }
}

impl Sleep {
    /// The duration in whole milliseconds, unbounded.
    pub open spec fn millis_spec(&self) -> int {
        self.secs * 1000 + self.nanos / 1_000_000
    }

    /// The duration in whole milliseconds as it crosses the wire: saturated
    /// at `u64::MAX`.
    pub open spec fn wire_millis(&self) -> u64 {
        if self.millis_spec() <= u64::MAX {
            self.millis_spec() as u64
        } else {
            u64::MAX
        }
    }

    /// The sleep of `ms` milliseconds.
    pub open spec fn from_millis_spec(ms: u64) -> Sleep {
        Sleep { secs: ms / 1000, nanos: ((ms % 1000) * 1_000_000) as u32 }
    }

    /// A sleep of `ms` milliseconds.
    pub fn from_millis(ms: u64) -> (s: Sleep)
        ensures
            s == Sleep::from_millis_spec(ms),
    {
        Sleep { secs: ms / 1000, nanos: ((ms % 1000) as u32) * 1_000_000 }
    }

    /// The duration in whole milliseconds, as it crosses the wire; saturates
    /// at `u64::MAX`.
    pub fn millis(&self) -> (ms: u64)
        ensures
            ms == self.wire_millis(),
    {
        let total: u128 = (self.secs as u128) * 1000 + (self.nanos / 1_000_000) as u128;
        if total <= u64::MAX as u128 {
            total as u64
        } else {
            u64::MAX
        }
    }
}

/// A sleep is answered with `unit` once it is over.
impl ask::Ask for Sleep {
    type Reply = ();
}

/// A sleep is answered with `unit` once it is over.
impl request::Request for Sleep {
    type Reply = ();
}

/// Whole milliseconds, `u64`. Sub-millisecond precision does not cross.
impl Encode for Sleep {
    open spec fn encoding(&self) -> Seq<u8> {
        le_u64(self.wire_millis())
    }

    open spec fn encodable(&self) -> bool {
        true
    }

    fn fits(&self) -> (b: bool) {
        true
    }

    fn encode(&self, w: &mut Writer) {
        w.u64(self.millis());
    }
}

impl Decode for Sleep {
    type Model = Sleep;

    open spec fn model(&self) -> Sleep {
        *self
    }

    open spec fn decoding(bytes: Seq<u8>) -> (Result<Sleep, DecodeError>, Seq<u8>) {
        match read_u64(bytes) {
            (Some(ms), rest) => (Ok(Sleep::from_millis_spec(ms)), rest),
            (None, rest) => (Err(DecodeError::Invalid), rest),
        }
    }

    fn decode(r: &mut Reader<'_>) -> (res: Result<Sleep, DecodeError>) {
        match r.u64() {
            Some(ms) => Ok(Sleep::from_millis(ms)),
            None => Err(DecodeError::Invalid),
        }
    }
}

/// A sleep of whole milliseconds keeps them all across the wire: the
/// milliseconds of `from_millis(ms)` are `ms`.
pub proof fn lemma_from_millis_keeps_millis(ms: u64)
    ensures
        Sleep::from_millis_spec(ms).millis_spec() == ms,
        Sleep::from_millis_spec(ms).wire_millis() == ms,
{
    let s = Sleep::from_millis_spec(ms);
    assert((ms % 1000) * 1_000_000 < 1_000_000_000);
    assert(s.nanos / 1_000_000 == ms % 1000);
}

/// A sleep of whole milliseconds, written and read back, is the sleep
/// written, and nothing past it is consumed.
pub proof fn lemma_sleep_round_trip(s: Sleep, rest: Seq<u8>)
    requires
        s.nanos < 1_000_000_000,
        s.nanos % 1_000_000 == 0,
        s.millis_spec() <= u64::MAX,
    ensures
        Sleep::decoding(s.encoding() + rest) == (Ok::<Sleep, DecodeError>(s), rest),
{
    crate::boundary::codec::lemma_u64_round_trip(s.wire_millis(), rest);
    let ms = s.wire_millis();
    assert(ms == s.secs * 1000 + s.nanos / 1_000_000);
    assert(s.nanos / 1_000_000 < 1000);
    assert(ms / 1000 == s.secs);
    assert(ms % 1000 == s.nanos / 1_000_000);
    assert((s.nanos / 1_000_000) * 1_000_000 == s.nanos);
}

} // verus!

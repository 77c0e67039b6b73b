//! One decoded reply record: what the host is telling the routine.

use crate::boundary::codec::{
    framed_payload, le_u64, lemma_bytes_round_trip, lemma_str_round_trip, lemma_u64_round_trip,
    lemma_u8_round_trip, read_bytes, read_str, read_u64, read_u8, DecodeError, Reader,
};
use vstd::prelude::*;
use vstd::slice::*;
use vstd::utf8::*;

verus! {

/// One reply record: `1 id str`, `2 id u64`, `3 id`, or `4 id bytes`.
#[derive(Debug, PartialEq, Eq)]
pub enum Input {
    /// A `bytes` reply to request `0`.
    Bytes(u64, Vec<u8>),
    /// A `str` reply to request `0`.
    Str(u64, String),
    /// A `u64` reply to request `0`.
    U64(u64, u64),
    /// A `unit` reply to request `0`.
    Unit(u64),
}

/// A reply record as plain values.
pub enum InputView {
    Bytes(u64, Seq<u8>),
    Str(u64, Seq<char>),
    U64(u64, u64),
    Unit(u64),
}

impl View for Input {
    type V = InputView;

    open spec fn view(&self) -> InputView {
        match self {
            Input::Bytes(id, v) => InputView::Bytes(*id, v@),
            Input::Str(id, s) => InputView::Str(*id, s@),
            Input::U64(id, v) => InputView::U64(*id, *v),
            Input::Unit(id) => InputView::Unit(*id),
        }
    }
}

/// A record decoded from the whole input: trailing bytes are refused.
pub open spec fn ended(v: InputView, rest: Seq<u8>) -> Result<InputView, DecodeError> {
    if rest.len() == 0 {
        Ok(v)
    } else {
        Err(DecodeError::TrailingBytes { remaining: rest.len() as usize })
    }
}

/// What a reply record decodes to: the tag, the request id, the payload of
/// the tag's kind, and nothing after it.
pub open spec fn parse_record(bytes: Seq<u8>) -> Result<InputView, DecodeError> {
    let (tag, r0) = read_u8(bytes);
    let (id, r1) = read_u64(r0);
    match tag {
        None => Err(DecodeError::Invalid),
        Some(1u8) => {
            let (s, r2) = read_str(r1);
            match (id, s) {
                (Some(id), Some(s)) => ended(InputView::Str(id, s), r2),
                _ => Err(DecodeError::Invalid),
            }
        },
        Some(2u8) => {
            let (v, r2) = read_u64(r1);
            match (id, v) {
                (Some(id), Some(v)) => ended(InputView::U64(id, v), r2),
                _ => Err(DecodeError::Invalid),
            }
        },
        Some(3u8) => match id {
            Some(id) => ended(InputView::Unit(id), r1),
            None => Err(DecodeError::Invalid),
        },
        Some(4u8) => {
            let (b, r2) = read_bytes(r1);
            match (id, b) {
                (Some(id), Some(b)) => ended(InputView::Bytes(id, b), r2),
                _ => Err(DecodeError::Invalid),
            }
        },
        Some(tag) => Err(DecodeError::UnknownTag { tag }),
    }
}

/// The view of a decoded record.
pub open spec fn input_result(r: Result<Input, DecodeError>) -> Result<InputView, DecodeError> {
    match r {
        Ok(i) => Ok(i@),
        Err(e) => Err(e),
    }
}

impl Input {
    /// Decode one reply record, which must be the whole of `bytes`.
    pub fn decode(bytes: &[u8]) -> (res: Result<Input, DecodeError>)
        ensures
            input_result(res) == parse_record(bytes@),
    {
        let mut r = Reader::new(bytes);
        let input = match r.u8() {
            Some(1) => match r.u64() {
                Some(id) => match r.str() {
                    Some(s) => Input::Str(id, s),
                    None => return Err(DecodeError::Invalid),
                },
                None => return Err(DecodeError::Invalid),
            },
            Some(2) => match r.u64() {
                Some(id) => match r.u64() {
                    Some(v) => Input::U64(id, v),
                    None => return Err(DecodeError::Invalid),
                },
                None => return Err(DecodeError::Invalid),
            },
            Some(3) => match r.u64() {
                Some(id) => Input::Unit(id),
                None => return Err(DecodeError::Invalid),
            },
            Some(4) => match r.u64() {
                Some(id) => match r.bytes() {
                    Some(b) => Input::Bytes(id, slice_to_vec(b)),
                    None => return Err(DecodeError::Invalid),
                },
                None => return Err(DecodeError::Invalid),
            },
            Some(tag) => return Err(DecodeError::UnknownTag { tag }),
            None => return Err(DecodeError::Invalid),
        };
        match r.finish() {
            Ok(()) => Ok(input),
            Err(e) => Err(e),
        }
    }
}

/// A `str` record a host writes decodes to that reply.
pub proof fn lemma_str_record(id: u64, s: Seq<char>)
    requires
        encode_utf8(s).len() <= u32::MAX,
    ensures
        parse_record(seq![1u8] + le_u64(id) + framed_payload(encode_utf8(s))) == Ok::<
            InputView,
            DecodeError,
        >(InputView::Str(id, s)),
{
    let empty = Seq::<u8>::empty();
    let payload = framed_payload(encode_utf8(s));
    lemma_str_round_trip(s, empty);
    lemma_u64_round_trip(id, payload + empty);
    lemma_u8_round_trip(1u8, le_u64(id) + (payload + empty));
    assert(seq![1u8] + le_u64(id) + payload =~= seq![1u8] + (le_u64(id) + (payload + empty)));
}

/// A `u64` record a host writes decodes to that reply.
pub proof fn lemma_u64_record(id: u64, v: u64)
    ensures
        parse_record(seq![2u8] + le_u64(id) + le_u64(v)) == Ok::<InputView, DecodeError>(
            InputView::U64(id, v),
        ),
{
    let empty = Seq::<u8>::empty();
    lemma_u64_round_trip(v, empty);
    lemma_u64_round_trip(id, le_u64(v) + empty);
    lemma_u8_round_trip(2u8, le_u64(id) + (le_u64(v) + empty));
    assert(seq![2u8] + le_u64(id) + le_u64(v) =~= seq![2u8] + (le_u64(id) + (le_u64(v) + empty)));
}

/// A `unit` record a host writes decodes to that reply.
pub proof fn lemma_unit_record(id: u64)
    ensures
        parse_record(seq![3u8] + le_u64(id)) == Ok::<InputView, DecodeError>(InputView::Unit(id)),
{
    let empty = Seq::<u8>::empty();
    lemma_u64_round_trip(id, empty);
    lemma_u8_round_trip(3u8, le_u64(id) + empty);
    assert(seq![3u8] + le_u64(id) =~= seq![3u8] + (le_u64(id) + empty));
}

/// A `bytes` record a host writes decodes to that reply.
pub proof fn lemma_bytes_record(id: u64, b: Seq<u8>)
    requires
        b.len() <= u32::MAX,
    ensures
        parse_record(seq![4u8] + le_u64(id) + framed_payload(b)) == Ok::<InputView, DecodeError>(
            InputView::Bytes(id, b),
        ),
{
    let empty = Seq::<u8>::empty();
    lemma_bytes_round_trip(b, empty);
    lemma_u64_round_trip(id, framed_payload(b) + empty);
    lemma_u8_round_trip(4u8, le_u64(id) + (framed_payload(b) + empty));
    assert(seq![4u8] + le_u64(id) + framed_payload(b) =~= seq![4u8] + (le_u64(id) + (
    framed_payload(b) + empty)));
}

} // verus!

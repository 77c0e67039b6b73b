//! What reading and writing a line record under a reifying context.

use super::ReadLineError;
use crate::boundary::codec::{framed_payload, read_str, Decode, DecodeError, Encode, Reader, Writer};
use crate::effects::ask::Ask;
use vstd::prelude::*;
use vstd::string::*;
use vstd::utf8::*;

verus! {

/// The next line of input. Awaits a line or a
/// [`ReadLineError`], which crosses as `bytes`.
#[derive(Clone, Copy, Debug, PartialEq, Eq, Structural)]
pub struct ReadLine;

impl View for ReadLine {
    type V = ReadLine;

    open spec fn view(&self) -> ReadLine {
        *self
    }
}

/// A read is answered with the line, or why there is none.
impl Ask for ReadLine {
    type Reply = Result<String, ReadLineError>;
}

/// No fields.
impl Encode for ReadLine {
    open spec fn encoding(&self) -> Seq<u8> {
        Seq::empty()
    }

    open spec fn encodable(&self) -> bool {
        true
    }

    fn fits(&self) -> (b: bool) {
        true
    }

    fn encode(&self, w: &mut Writer) {
        proof {
            assert(old(w)@ + Seq::<u8>::empty() =~= old(w)@);
        }
    }
}

impl Decode for ReadLine {
    type Model = ReadLine;

    open spec fn model(&self) -> ReadLine {
        *self
    }

    open spec fn decoding(bytes: Seq<u8>) -> (Result<ReadLine, DecodeError>, Seq<u8>) {
        (Ok(ReadLine), bytes)
    }

    fn decode(r: &mut Reader<'_>) -> (res: Result<ReadLine, DecodeError>) {
        Ok(ReadLine)
    }
}

/// Show a line. Fire-and-forget.
#[derive(Clone, Debug, PartialEq, Eq)]
pub struct WriteLine(pub String);

impl View for WriteLine {
    type V = Seq<char>;

    open spec fn view(&self) -> Seq<char> {
        self.0@
    }
}

/// The line, as a `str`.
impl Encode for WriteLine {
    open spec fn encoding(&self) -> Seq<u8> {
        framed_payload(encode_utf8(self.0@))
    }

    open spec fn encodable(&self) -> bool {
        encode_utf8(self.0@).len() <= u32::MAX
    }

    fn fits(&self) -> (b: bool) {
        let n = self.0.as_str().as_bytes().len();
        n as u64 <= u32::MAX as u64
    }

    fn encode(&self, w: &mut Writer) {
        w.str(self.0.as_str());
    }
}

impl Decode for WriteLine {
    type Model = Seq<char>;

    open spec fn model(&self) -> Seq<char> {
        self@
    }

    open spec fn decoding(bytes: Seq<u8>) -> (Result<Seq<char>, DecodeError>, Seq<u8>) {
        match read_str(bytes) {
            (Some(s), rest) => (Ok(s), rest),
            (None, rest) => (Err(DecodeError::Invalid), rest),
        }
    }

    fn decode(r: &mut Reader<'_>) -> (res: Result<WriteLine, DecodeError>) {
        match r.str() {
            Some(s) => Ok(WriteLine(s)),
            None => Err(DecodeError::Invalid),
        }
    }
}

/// A line written and read back is the line written, and nothing past it
/// is consumed.
pub proof fn lemma_write_line_round_trip(line: Seq<char>, rest: Seq<u8>)
    requires
        encode_utf8(line).len() <= u32::MAX,
    ensures
        WriteLine::decoding(framed_payload(encode_utf8(line)) + rest) == (Ok::<
            Seq<char>,
            DecodeError,
        >(line), rest),
{
    crate::boundary::codec::lemma_str_round_trip(line, rest);
}

} // verus!

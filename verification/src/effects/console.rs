//! The console: reading and writing lines.

pub mod effect;

use crate::boundary::codec::{
    lemma_result_round_trip, lemma_string_round_trip, read_u8, Decode, DecodeError, Encode, Reader,
    Writer,
};
use crate::reply::Answer;
use vstd::prelude::*;
use vstd::string::*;
use vstd::utf8::encode_utf8;

verus! {

/// Write a line. Fire-and-forget, so not `async`.
pub trait WriteLine {
    /// Show `line`.
    fn write_line(&self, line: String);
}

/// Why no line was read.
#[non_exhaustive]
#[derive(Clone, Copy, Debug, PartialEq, Eq, Structural)]
pub enum ReadLineError {
    /// The input has ended; no more lines will come.
    Closed,
    /// The input could not be read.
    Failed,
}

impl View for ReadLineError {
    type V = ReadLineError;

    open spec fn view(&self) -> ReadLineError {
        *self
    }
}

/// `Closed` is tag `0`, `Failed` tag `1`.
impl Encode for ReadLineError {
    open spec fn encoding(&self) -> Seq<u8> {
        match self {
            ReadLineError::Closed => seq![0u8],
            ReadLineError::Failed => seq![1u8],
        }
    }

    open spec fn encodable(&self) -> bool {
        true
    }

    fn fits(&self) -> (b: bool) {
        true
    }

    fn encode(&self, w: &mut Writer) {
        w.u8(
            match self {
                ReadLineError::Closed => 0,
                ReadLineError::Failed => 1,
            },
        );
    }
}

impl Decode for ReadLineError {
    type Model = ReadLineError;

    open spec fn model(&self) -> ReadLineError {
        *self
    }

    open spec fn decoding(bytes: Seq<u8>) -> (Result<ReadLineError, DecodeError>, Seq<u8>) {
        match read_u8(bytes) {
            (Some(0), rest) => (Ok(ReadLineError::Closed), rest),
            (Some(1), rest) => (Ok(ReadLineError::Failed), rest),
            (Some(tag), rest) => (Err(DecodeError::UnknownTag { tag }), rest),
            (None, rest) => (Err(DecodeError::Invalid), rest),
        }
    }

    fn decode(r: &mut Reader<'_>) -> (res: Result<ReadLineError, DecodeError>) {
        match r.u8() {
            Some(0) => Ok(ReadLineError::Closed),
            Some(1) => Ok(ReadLineError::Failed),
            Some(tag) => Err(DecodeError::UnknownTag { tag }),
            None => Err(DecodeError::Invalid),
        }
    }
}

/// A line as read, without its line ending: a final `\n`, and a `\r`
/// before it.
pub open spec fn without_ending(line: Seq<char>) -> Seq<char> {
    if line.len() > 0 && line.last() == '\n' {
        let rest = line.drop_last();
        if rest.len() > 0 && rest.last() == '\r' {
            rest.drop_last()
        } else {
            rest
        }
    } else {
        line
    }
}

/// What one read of a line gives the routine: `read` is how many bytes the
/// read took, or `None` if it failed, and `line` what it appended.
pub open spec fn line_read_spec(read: Option<usize>, line: Seq<char>) -> Result<
    Seq<char>,
    ReadLineError,
> {
    match read {
        None => Err(ReadLineError::Failed),
        Some(0) => Err(ReadLineError::Closed),
        Some(_) => Ok(without_ending(line)),
    }
}

/// What one read of a line gives the routine: the line without its ending
/// (`\n` or `\r\n`); [`ReadLineError::Closed`] if the read took nothing,
/// the end of input; [`ReadLineError::Failed`] if it failed. `read` is how
/// many bytes the read took, or `None` on a read error; `line` is what it
/// appended.
pub fn line_from_read(read: Option<usize>, line: String) -> (r: Result<String, ReadLineError>)
    ensures
        match line_read_spec(read, line@) {
            Ok(s) => r matches Ok(out) && out@ == s,
            Err(e) => r == Err::<String, ReadLineError>(e),
        },
{
    match read {
        None => Err(ReadLineError::Failed),
        Some(0) => Err(ReadLineError::Closed),
        Some(_) => {
            let text = line.as_str();
            let n = text.unicode_len();
            let mut keep = n;
            if n > 0 && text.get_char(n - 1) == '\n' {
                keep = n - 1;
                if keep > 0 && text.get_char(keep - 1) == '\r' {
                    keep = keep - 1;
                }
            }
            let kept = text.substring_char(0, keep).to_owned();
            proof {
                let l = line@;
                if n > 0 && l.last() == '\n' {
                    assert(l.drop_last() =~= l.subrange(0, n - 1));
                    if n - 1 > 0 && l[n - 2] == '\r' {
                        assert(l.drop_last().drop_last() =~= l.subrange(0, n - 2));
                    }
                } else {
                    assert(l =~= l.subrange(0, n as int));
                }
            }
            Ok(kept)
        },
    }
}

/// An error written is the error read back, and nothing else is consumed.
pub proof fn lemma_read_line_error_round_trip(e: ReadLineError, rest: Seq<u8>)
    ensures
        ReadLineError::decoding(e.encoding() + rest) == (Ok::<ReadLineError, DecodeError>(e), rest),
{
    assert((e.encoding() + rest).skip(1) =~= rest);
}

/// The answer to a read crosses the wire and reads back as itself: the
/// line, or why there is none.
pub proof fn lemma_read_line_answer_round_trip(x: Result<String, ReadLineError>)
    requires
        x.crosses(),
    ensures
        <Result<String, ReadLineError> as Answer>::from_wire_of(x.wire_of()) == Ok::<
            Result<Seq<char>, ReadLineError>,
            DecodeError,
        >(x.seen()),
{
    match x {
        Ok(line) => lemma_string_round_trip(line, Seq::empty()),
        Err(e) => lemma_read_line_error_round_trip(e, Seq::empty()),
    }
    lemma_result_round_trip(x, Seq::empty());
    assert(x.encoding() + Seq::<u8>::empty() =~= x.encoding());
}

/// A read gives the line without its ending: a final `\r\n` goes whole,
/// whatever precedes it; a lone final `\n` goes; a line with no final `\n`
/// is kept as it is. A read that took nothing is the end of input, and a
/// read that failed is a failure.
pub proof fn lemma_a_read_drops_the_line_ending(n: usize, line: Seq<char>)
    ensures
        line_read_spec(None, line) == Err::<Seq<char>, ReadLineError>(ReadLineError::Failed),
        line_read_spec(Some(0), line) == Err::<Seq<char>, ReadLineError>(ReadLineError::Closed),
        n > 0 && line.len() >= 2 && line[line.len() - 2] == '\r' && line[line.len() - 1] == '\n'
            ==> line_read_spec(Some(n), line) == Ok::<Seq<char>, ReadLineError>(
            line.subrange(0, line.len() - 2),
        ),
        n > 0 && line.len() >= 1 && line[line.len() - 1] == '\n' && !(line.len() >= 2
            && line[line.len() - 2] == '\r') ==> line_read_spec(Some(n), line) == Ok::<
            Seq<char>,
            ReadLineError,
        >(line.subrange(0, line.len() - 1)),
        n > 0 && !(line.len() >= 1 && line[line.len() - 1] == '\n') ==> line_read_spec(
            Some(n),
            line,
        ) == Ok::<Seq<char>, ReadLineError>(line),
{
    if line.len() >= 1 && line[line.len() - 1] == '\n' {
        assert(line.drop_last() =~= line.subrange(0, line.len() - 1));
        if line.len() >= 2 {
            assert(line.drop_last().last() == line[line.len() - 2]);
            assert(line.drop_last().drop_last() =~= line.subrange(0, line.len() - 2));
        }
    }
}

/// Every answer to a read crosses when its line does, and an error always
/// does: the answer at the end of input crosses as the error's tag after the
/// `Err` tag.
pub proof fn lemma_every_read_answer_crosses(x: Result<String, ReadLineError>)
    ensures
        x matches Err(e) ==> x.crosses() && x.wire_of() == seq![1u8, e.encoding()[0]],
        x matches Ok(line) ==> (x.crosses() <==> encode_utf8(line@).len() <= u32::MAX),
        x == Err::<String, ReadLineError>(ReadLineError::Closed) ==> x.wire_of() == seq![1u8, 0u8],
{
    if let Err(e) = x {
        assert(seq![1u8] + e.encoding() =~= seq![1u8, e.encoding()[0]]);
    }
}

} // verus!

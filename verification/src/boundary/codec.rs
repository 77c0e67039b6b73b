//! The byte codec: how a host's view of an effect is written, and how a
//! reply record is read.
//!
//! Little-endian throughout. `str` and `bytes` are a `u32` length then the
//! payload; every read of a [`Reader`] returns `None` on short or malformed
//! input rather than panicking.

use vstd::bytes::*;
use vstd::prelude::*;
use vstd::slice::*;
use vstd::string::*;
use vstd::utf8::*;

verus! {

/// The four little-endian bytes of `v`.
pub open spec fn le_u32(v: u32) -> Seq<u8> {
    spec_u32_to_le_bytes(v)
}

/// The eight little-endian bytes of `v`.
pub open spec fn le_u64(v: u64) -> Seq<u8> {
    spec_u64_to_le_bytes(v)
}

/// A length-prefixed record: a `u32` length, then the payload.
pub open spec fn framed_payload(payload: Seq<u8>) -> Seq<u8> {
    le_u32(payload.len() as u32) + payload
}

/// Reading one byte from `s`: the byte, and what is left.
pub open spec fn read_u8(s: Seq<u8>) -> (Option<u8>, Seq<u8>) {
    if s.len() >= 1 {
        (Some(s[0]), s.skip(1))
    } else {
        (None, s)
    }
}

/// Reading a little-endian `u32` from `s`: the value, and what is left.
pub open spec fn read_u32(s: Seq<u8>) -> (Option<u32>, Seq<u8>) {
    if s.len() >= 4 {
        (Some(spec_u32_from_le_bytes(s.take(4))), s.skip(4))
    } else {
        (None, s)
    }
}

/// Reading a little-endian `u64` from `s`: the value, and what is left.
pub open spec fn read_u64(s: Seq<u8>) -> (Option<u64>, Seq<u8>) {
    if s.len() >= 8 {
        (Some(spec_u64_from_le_bytes(s.take(8))), s.skip(8))
    } else {
        (None, s)
    }
}

/// Reading a length-prefixed payload from `s`. A length that runs past the
/// end is `None`, and the length itself has then been consumed.
pub open spec fn read_bytes(s: Seq<u8>) -> (Option<Seq<u8>>, Seq<u8>) {
    let (len, rest) = read_u32(s);
    match len {
        None => (None, s),
        Some(n) => if n <= rest.len() {
            (Some(rest.take(n as int)), rest.skip(n as int))
        } else {
            (None, rest)
        },
    }
}

/// Reading a length-prefixed UTF-8 string from `s`. A payload that is not
/// UTF-8 is `None`, and it has then been consumed.
pub open spec fn read_str(s: Seq<u8>) -> (Option<Seq<char>>, Seq<u8>) {
    let (payload, rest) = read_bytes(s);
    match payload {
        Some(b) => if valid_utf8(b) {
            (Some(decode_utf8(b)), rest)
        } else {
            (None, rest)
        },
        None => (None, rest),
    }
}

/// Why bytes did not decode.
#[derive(Clone, Copy, Debug, PartialEq, Eq, Structural)]
pub enum DecodeError {
    /// A field ran past the end of the input, or its bytes are not what the
    /// field holds (a string that is not UTF-8).
    Invalid,
    /// A tag byte that names no variant.
    UnknownTag {
        /// The tag read.
        tag: u8,
    },
    /// The record decoded, and bytes were left over.
    TrailingBytes {
        /// How many.
        remaining: usize,
    },
}

/// Appends little-endian records to a buffer.
#[derive(Debug, Default)]
pub struct Writer(Vec<u8>);

impl View for Writer {
    type V = Seq<u8>;

    closed spec fn view(&self) -> Seq<u8> {
        self.0@
    }
}

impl Writer {
    /// An empty buffer.
    pub fn new() -> (w: Self)
        ensures
            w@ == Seq::<u8>::empty(),
    {
        Writer(Vec::new())
    }

    /// One byte.
    pub fn u8(&mut self, v: u8)
        ensures
            final(self)@ == old(self)@.push(v),
    {
        self.0.push(v);
    }

    /// Four bytes, little-endian.
    pub fn u32(&mut self, v: u32)
        ensures
            final(self)@ == old(self)@ + le_u32(v),
    {
        let mut b = u32_to_le_bytes(v);
        self.0.append(&mut b);
    }

    /// Eight bytes, little-endian.
    pub fn u64(&mut self, v: u64)
        ensures
            final(self)@ == old(self)@ + le_u64(v),
    {
        let mut b = u64_to_le_bytes(v);
        self.0.append(&mut b);
    }

    /// A `u32` length, then the bytes. A payload of 4 GiB or more cannot be
    /// framed.
    pub fn bytes(&mut self, b: &[u8])
        requires
            b@.len() <= u32::MAX,
        ensures
            final(self)@ == old(self)@ + framed_payload(b@),
    {
        self.u32(b.len() as u32);
        let mut v = slice_to_vec(b);
        self.0.append(&mut v);
        proof {
            assert(final(self)@ =~= old(self)@ + framed_payload(b@));
        }
    }

    /// A `u32` length, then UTF-8.
    pub fn str(&mut self, s: &str)
        requires
            s.spec_bytes().len() <= u32::MAX,
        ensures
            final(self)@ == old(self)@ + framed_payload(encode_utf8(s@)),
    {
        self.bytes(s.as_bytes());
    }

    /// The buffer.
    pub fn finish(self) -> (v: Vec<u8>)
        ensures
            v@ == self@,
    {
        self.0
    }
}

/// Reads little-endian records; every read returns `None` on short or
/// malformed input.
#[derive(Debug)]
pub struct Reader<'a> {
    bytes: &'a [u8],
}

impl<'a> View for Reader<'a> {
    type V = Seq<u8>;

    closed spec fn view(&self) -> Seq<u8> {
        self.bytes@
    }
}

impl<'a> Reader<'a> {
    /// Read from the start of `bytes`.
    pub fn new(bytes: &'a [u8]) -> (r: Self)
        ensures
            r@ == bytes@,
    {
        Reader { bytes }
    }

    /// The next `n` bytes, or `None`, consuming nothing, if fewer are left.
    fn take(&mut self, n: usize) -> (head: Option<&'a [u8]>)
        ensures
            n <= old(self)@.len() ==> head is Some && head->0@ == old(self)@.take(n as int)
                && final(self)@ == old(self)@.skip(n as int),
            n > old(self)@.len() ==> head is None && final(self)@ == old(self)@,
    {
        let len = self.bytes.len();
        if n <= len {
            let head = slice_subrange(self.bytes, 0, n);
            self.bytes = slice_subrange(self.bytes, n, len);
            Some(head)
        } else {
            None
        }
    }

    /// One byte.
    pub fn u8(&mut self) -> (res: Option<u8>)
        ensures
            (res, final(self)@) == read_u8(old(self)@),
    {
        match self.take(1) {
            Some(b) => Some(b[0]),
            None => None,
        }
    }

    /// Four bytes, little-endian.
    pub fn u32(&mut self) -> (res: Option<u32>)
        ensures
            (res, final(self)@) == read_u32(old(self)@),
    {
        match self.take(4) {
            Some(b) => Some(u32_from_le_bytes(b)),
            None => None,
        }
    }

    /// Eight bytes, little-endian.
    pub fn u64(&mut self) -> (res: Option<u64>)
        ensures
            (res, final(self)@) == read_u64(old(self)@),
    {
        match self.take(8) {
            Some(b) => Some(u64_from_le_bytes(b)),
            None => None,
        }
    }

    /// A `u32` length, then that many bytes.
    pub fn bytes(&mut self) -> (res: Option<&'a [u8]>)
        ensures
            final(self)@ == read_bytes(old(self)@).1,
            match res {
                Some(b) => read_bytes(old(self)@).0 == Some(b@),
                None => read_bytes(old(self)@).0 is None,
            },
    {
        match self.u32() {
            Some(len) => self.take(len as usize),
            None => None,
        }
    }

    /// A `u32` length, then UTF-8.
    pub fn str(&mut self) -> (res: Option<String>)
        ensures
            final(self)@ == read_str(old(self)@).1,
            match res {
                Some(s) => read_str(old(self)@).0 == Some(s@),
                None => read_str(old(self)@).0 is None,
            },
    {
        match self.bytes() {
            Some(b) => match utf8_str(b) {
                Some(s) => Some(s.to_owned()),
                None => None,
            },
            None => None,
        }
    }

    /// `true` when every byte has been consumed.
    pub fn is_empty(&self) -> (empty: bool)
        ensures
            empty == (self@.len() == 0),
    {
        self.bytes.len() == 0
    }

    /// `Ok` when every byte has been consumed.
    pub fn finish(&self) -> (res: Result<(), DecodeError>)
        ensures
            res == if self@.len() == 0 {
                Ok::<(), DecodeError>(())
            } else {
                Err(DecodeError::TrailingBytes { remaining: self@.len() as usize })
            },
    {
        let remaining = self.bytes.len();
        if remaining == 0 {
            Ok(())
        } else {
            Err(DecodeError::TrailingBytes { remaining })
        }
    }
}


/// How a value is written for the byte layer: tag, fields, and, for an
/// awaiting effect, its id.
///
/// A type whose impl states nothing of its bytes is never encodable as far
/// as the verified code is concerned: it can be framed by the binding, not
/// by this crate's verified framing.
pub trait Encode {
    /// The bytes this value writes.
    open spec fn encoding(&self) -> Seq<u8> {
        Seq::empty()
    }

    /// Whether this value can be written: every payload in it shorter than
    /// 4 GiB.
    open spec fn encodable(&self) -> bool {
        false
    }

    /// Whether this value can be written, found at run time: every payload
    /// in it shorter than 4 GiB.
    fn fits(&self) -> (b: bool)
        ensures
            b == self.encodable(),
    ;

    /// Append this value's records to `w`.
    fn encode(&self, w: &mut Writer)
        requires
            self.encodable(),
        ensures
            final(w)@ == old(w)@ + self.encoding(),
    ;

    /// This value's records, on their own.
    fn to_bytes(&self) -> (b: Vec<u8>)
        requires
            self.encodable(),
        ensures
            b@ == self.encoding(),
    {
        let mut w = Writer::new();
        self.encode(&mut w);
        proof {
            assert(w@ =~= self.encoding());
        }
        w.finish()
    }
}

/// How a value is read back from its records. What a read gives is stated
/// over the value's model: what contracts take the value as.
pub trait Decode: Sized {
    /// What contracts take a decoded value as.
    type Model;

    /// This value as contracts take it.
    spec fn model(&self) -> Self::Model;

    /// Reading one value from `bytes`: the value's model or why not, and what
    /// is left.
    spec fn decoding(bytes: Seq<u8>) -> (Result<Self::Model, DecodeError>, Seq<u8>);

    /// Read one value from `r`.
    fn decode(r: &mut Reader<'_>) -> (res: Result<Self, DecodeError>)
        ensures
            Self::decoding(old(r)@) == (match res {
                Ok(v) => Ok(v.model()),
                Err(e) => Err(e),
            }, final(r)@),
    ;

    /// Read one value that is the whole of `bytes`.
    fn from_bytes(bytes: &[u8]) -> (res: Result<Self, DecodeError>)
        ensures
            whole(Self::decoding(bytes@)) == match res {
                Ok(v) => Ok(v.model()),
                Err(e) => Err(e),
            },
    {
        let mut r = Reader::new(bytes);
        match Self::decode(&mut r) {
            Ok(v) => match r.finish() {
                Ok(()) => Ok(v),
                Err(e) => Err(e),
            },
            Err(e) => Err(e),
        }
    }
}

/// A decoding that must consume every byte: the value, or why not —
/// trailing bytes included.
pub open spec fn whole<V>(d: (Result<V, DecodeError>, Seq<u8>)) -> Result<V, DecodeError> {
    match d.0 {
        Ok(v) => if d.1.len() == 0 {
            Ok(v)
        } else {
            Err(DecodeError::TrailingBytes { remaining: d.1.len() as usize })
        },
        Err(e) => Err(e),
    }
}

/// A request id: eight bytes, little-endian.
impl Encode for u64 {
    open spec fn encoding(&self) -> Seq<u8> {
        le_u64(*self)
    }

    open spec fn encodable(&self) -> bool {
        true
    }

    fn fits(&self) -> (b: bool) {
        true
    }

    fn encode(&self, w: &mut Writer) {
        w.u64(*self);
    }
}

impl Decode for u64 {
    type Model = u64;

    open spec fn model(&self) -> u64 {
        *self
    }

    open spec fn decoding(bytes: Seq<u8>) -> (Result<u64, DecodeError>, Seq<u8>) {
        match read_u64(bytes) {
            (Some(v), rest) => (Ok(v), rest),
            (None, rest) => (Err(DecodeError::Invalid), rest),
        }
    }

    fn decode(r: &mut Reader<'_>) -> (res: Result<u64, DecodeError>) {
        match r.u64() {
            Some(v) => Ok(v),
            None => Err(DecodeError::Invalid),
        }
    }
}

/// A string: a `u32` length, then its UTF-8.
impl Encode for String {
    open spec fn encoding(&self) -> Seq<u8> {
        framed_payload(encode_utf8(self@))
    }

    open spec fn encodable(&self) -> bool {
        encode_utf8(self@).len() <= u32::MAX
    }

    fn fits(&self) -> (b: bool) {
        let n = self.as_str().as_bytes().len();
        n as u64 <= u32::MAX as u64
    }

    fn encode(&self, w: &mut Writer) {
        w.str(self.as_str());
    }
}

impl Decode for String {
    type Model = Seq<char>;

    open spec fn model(&self) -> Seq<char> {
        self@
    }

    open spec fn decoding(bytes: Seq<u8>) -> (Result<Seq<char>, DecodeError>, Seq<u8>) {
        match read_str(bytes) {
            (Some(s), rest) => (Ok(s), rest),
            (None, rest) => (Err(DecodeError::Invalid), rest),
        }
    }

    fn decode(r: &mut Reader<'_>) -> (res: Result<String, DecodeError>) {
        match r.str() {
            Some(s) => Ok(s),
            None => Err(DecodeError::Invalid),
        }
    }
}

/// A result: tag `0` then the value for `Ok`, tag `1` then the error for
/// `Err`.
impl<T: Encode, E: Encode> Encode for Result<T, E> {
    open spec fn encoding(&self) -> Seq<u8> {
        match self {
            Ok(t) => seq![0u8] + t.encoding(),
            Err(e) => seq![1u8] + e.encoding(),
        }
    }

    open spec fn encodable(&self) -> bool {
        match self {
            Ok(t) => t.encodable(),
            Err(e) => e.encodable(),
        }
    }

    fn fits(&self) -> (b: bool) {
        match self {
            Ok(t) => t.fits(),
            Err(e) => e.fits(),
        }
    }

    fn encode(&self, w: &mut Writer) {
        match self {
            Ok(t) => {
                w.u8(0);
                t.encode(w);
                proof {
                    assert(final(w)@ =~= old(w)@ + self.encoding());
                }
            },
            Err(e) => {
                w.u8(1);
                e.encode(w);
                proof {
                    assert(final(w)@ =~= old(w)@ + self.encoding());
                }
            },
        }
    }
}

/// What a result is taken as: the models of what it holds.
pub open spec fn result_model<T: Decode, E: Decode>(x: Result<T, E>) -> Result<T::Model, E::Model> {
    match x {
        Ok(t) => Ok(t.model()),
        Err(e) => Err(e.model()),
    }
}

impl<T: Decode, E: Decode> Decode for Result<T, E> {
    type Model = Result<T::Model, E::Model>;

    open spec fn model(&self) -> Result<T::Model, E::Model> {
        result_model(*self)
    }

    open spec fn decoding(bytes: Seq<u8>) -> (Result<Result<T::Model, E::Model>, DecodeError>, Seq<u8>) {
        match read_u8(bytes) {
            (Some(0), rest) => match T::decoding(rest) {
                (Ok(t), after) => (Ok(Ok(t)), after),
                (Err(why), after) => (Err(why), after),
            },
            (Some(1), rest) => match E::decoding(rest) {
                (Ok(e), after) => (Ok(Err(e)), after),
                (Err(why), after) => (Err(why), after),
            },
            (Some(tag), rest) => (Err(DecodeError::UnknownTag { tag }), rest),
            (None, rest) => (Err(DecodeError::Invalid), rest),
        }
    }

    fn decode(r: &mut Reader<'_>) -> (res: Result<Result<T, E>, DecodeError>) {
        match r.u8() {
            Some(0) => match T::decode(r) {
                Ok(t) => Ok(Ok(t)),
                Err(why) => Err(why),
            },
            Some(1) => match E::decode(r) {
                Ok(e) => Ok(Err(e)),
                Err(why) => Err(why),
            },
            Some(tag) => Err(DecodeError::UnknownTag { tag }),
            None => Err(DecodeError::Invalid),
        }
    }
}

/// An option: tag `0` for `None`, tag `1` then the value for `Some`.
impl<T: Encode> Encode for Option<T> {
    open spec fn encoding(&self) -> Seq<u8> {
        match self {
            None => seq![0u8],
            Some(t) => seq![1u8] + t.encoding(),
        }
    }

    open spec fn encodable(&self) -> bool {
        match self {
            None => true,
            Some(t) => t.encodable(),
        }
    }

    fn fits(&self) -> (b: bool) {
        match self {
            None => true,
            Some(t) => t.fits(),
        }
    }

    fn encode(&self, w: &mut Writer) {
        match self {
            None => {
                w.u8(0);
                proof {
                    assert(final(w)@ =~= old(w)@ + self.encoding());
                }
            },
            Some(t) => {
                w.u8(1);
                t.encode(w);
                proof {
                    assert(final(w)@ =~= old(w)@ + self.encoding());
                }
            },
        }
    }
}

/// What an option is taken as: the model of what it holds.
pub open spec fn option_model<T: Decode>(x: Option<T>) -> Option<T::Model> {
    match x {
        Some(t) => Some(t.model()),
        None => None,
    }
}

impl<T: Decode> Decode for Option<T> {
    type Model = Option<T::Model>;

    open spec fn model(&self) -> Option<T::Model> {
        option_model(*self)
    }

    open spec fn decoding(bytes: Seq<u8>) -> (Result<Option<T::Model>, DecodeError>, Seq<u8>) {
        match read_u8(bytes) {
            (Some(0), rest) => (Ok(None), rest),
            (Some(1), rest) => match T::decoding(rest) {
                (Ok(t), after) => (Ok(Some(t)), after),
                (Err(why), after) => (Err(why), after),
            },
            (Some(tag), rest) => (Err(DecodeError::UnknownTag { tag }), rest),
            (None, rest) => (Err(DecodeError::Invalid), rest),
        }
    }

    fn decode(r: &mut Reader<'_>) -> (res: Result<Option<T>, DecodeError>) {
        match r.u8() {
            Some(0) => Ok(None),
            Some(1) => match T::decode(r) {
                Ok(t) => Ok(Some(t)),
                Err(why) => Err(why),
            },
            Some(tag) => Err(DecodeError::UnknownTag { tag }),
            None => Err(DecodeError::Invalid),
        }
    }
}

/// `core::str::from_utf8`: the bytes as a string exactly when they are
/// well-formed UTF-8, which the standard library documents as its contract.
#[verifier::external_body]
fn utf8_str<'a>(bytes: &'a [u8]) -> (res: Option<&'a str>)
    ensures
        res is Some <==> valid_utf8(bytes@),
        res matches Some(s) ==> s@ == decode_utf8(bytes@),
{
    core::str::from_utf8(bytes).ok()
}

/// Reading back a byte gives the byte written, and leaves what followed it.
pub proof fn lemma_u8_round_trip(v: u8, rest: Seq<u8>)
    ensures
        read_u8(seq![v] + rest) == (Some(v), rest),
{
    assert((seq![v] + rest).skip(1) =~= rest);
}

/// Reading back a `u32` gives the value written, and leaves what followed it.
pub proof fn lemma_u32_round_trip(v: u32, rest: Seq<u8>)
    ensures
        read_u32(le_u32(v) + rest) == (Some(v), rest),
{
    lemma_auto_spec_u32_to_from_le_bytes();
    assert((le_u32(v) + rest).take(4) =~= le_u32(v));
    assert((le_u32(v) + rest).skip(4) =~= rest);
}

/// Reading back a `u64` gives the value written, and leaves what followed it.
pub proof fn lemma_u64_round_trip(v: u64, rest: Seq<u8>)
    ensures
        read_u64(le_u64(v) + rest) == (Some(v), rest),
{
    lemma_auto_spec_u64_to_from_le_bytes();
    assert((le_u64(v) + rest).take(8) =~= le_u64(v));
    assert((le_u64(v) + rest).skip(8) =~= rest);
}

/// Reading back a length-prefixed payload gives the payload written, and
/// leaves what followed it.
pub proof fn lemma_bytes_round_trip(b: Seq<u8>, rest: Seq<u8>)
    requires
        b.len() <= u32::MAX,
    ensures
        read_bytes(framed_payload(b) + rest) == (Some(b), rest),
{
    let n = b.len() as u32;
    lemma_u32_round_trip(n, b + rest);
    assert(framed_payload(b) + rest =~= le_u32(n) + (b + rest));
    assert((b + rest).take(n as int) =~= b);
    assert((b + rest).skip(n as int) =~= rest);
}

/// Reading back a string gives the string written, and leaves what followed
/// it.
pub proof fn lemma_str_round_trip(s: Seq<char>, rest: Seq<u8>)
    requires
        encode_utf8(s).len() <= u32::MAX,
    ensures
        read_str(framed_payload(encode_utf8(s)) + rest) == (Some(s), rest),
{
    encode_utf8_valid_utf8(s);
    encode_utf8_decode_utf8(s);
    lemma_bytes_round_trip(encode_utf8(s), rest);
}

/// A string written is the string read back, and nothing past it is
/// consumed.
pub proof fn lemma_string_round_trip(x: String, rest: Seq<u8>)
    requires
        x.encodable(),
    ensures
        String::decoding(x.encoding() + rest) == (Ok::<Seq<char>, DecodeError>(x.model()), rest),
{
    lemma_str_round_trip(x@, rest);
}

/// A result reads back as written, when what it holds does.
pub proof fn lemma_result_round_trip<T: Encode + Decode, E: Encode + Decode>(
    x: Result<T, E>,
    rest: Seq<u8>,
)
    requires
        match x {
            Ok(t) => T::decoding(t.encoding() + rest) == (Ok::<T::Model, DecodeError>(t.model()), rest),
            Err(e) => E::decoding(e.encoding() + rest) == (Ok::<E::Model, DecodeError>(e.model()), rest),
        },
    ensures
        <Result<T, E> as Decode>::decoding(x.encoding() + rest) == (Ok::<
            Result<T::Model, E::Model>,
            DecodeError,
        >(x.model()), rest),
{
    match x {
        Ok(t) => {
            assert((seq![0u8] + t.encoding() + rest).skip(1) =~= t.encoding() + rest);
            assert(x.encoding() + rest =~= seq![0u8] + t.encoding() + rest);
        },
        Err(e) => {
            assert((seq![1u8] + e.encoding() + rest).skip(1) =~= e.encoding() + rest);
            assert(x.encoding() + rest =~= seq![1u8] + e.encoding() + rest);
        },
    }
}

/// An option reads back as written, when what it holds does.
pub proof fn lemma_option_round_trip<T: Encode + Decode>(x: Option<T>, rest: Seq<u8>)
    requires
        x matches Some(t) ==> T::decoding(t.encoding() + rest) == (Ok::<T::Model, DecodeError>(
            t.model(),
        ), rest),
    ensures
        <Option<T> as Decode>::decoding(x.encoding() + rest) == (Ok::<
            Option<T::Model>,
            DecodeError,
        >(x.model()), rest),
{
    match x {
        None => {
            assert((seq![0u8] + rest).skip(1) =~= rest);
            assert(x.encoding() + rest =~= seq![0u8] + rest);
        },
        Some(t) => {
            assert((seq![1u8] + t.encoding() + rest).skip(1) =~= t.encoding() + rest);
            assert(x.encoding() + rest =~= seq![1u8] + t.encoding() + rest);
        },
    }
}

/// A result can be written exactly when what it holds can: an error fits as
/// well as a value, and its bytes are one tag byte before what it holds.
pub proof fn lemma_a_result_fits_as_what_it_holds<T: Encode, E: Encode>(x: Result<T, E>)
    ensures
        x matches Ok(t) ==> x.encodable() == t.encodable() && x.encoding().len() == 1
            + t.encoding().len() && x.encoding()[0] == 0 && x.encoding().skip(1) == t.encoding(),
        x matches Err(e) ==> x.encodable() == e.encodable() && x.encoding().len() == 1
            + e.encoding().len() && x.encoding()[0] == 1 && x.encoding().skip(1) == e.encoding(),
{
    match x {
        Ok(t) => assert(x.encoding().skip(1) =~= t.encoding()),
        Err(e) => assert(x.encoding().skip(1) =~= e.encoding()),
    }
}

/// An option can be written exactly when what it holds can, and `None`
/// always: its bytes are one tag byte before what it holds.
pub proof fn lemma_an_option_fits_as_what_it_holds<T: Encode>(x: Option<T>)
    ensures
        x is None ==> x.encodable() && x.encoding() == seq![0u8],
        x matches Some(t) ==> x.encodable() == t.encodable() && x.encoding().len() == 1
            + t.encoding().len() && x.encoding()[0] == 1 && x.encoding().skip(1) == t.encoding(),
{
    if let Some(t) = x {
        assert(x.encoding().skip(1) =~= t.encoding());
    }
}

} // verus!

//! Replies: what a routine's wait resolves to, and the handle that answers it.
//!
//! On the wire a reply is one of four things — bytes, a string, a `u64`, or
//! nothing ([`value::Value`]) — and [`Reply`] is the sealed trait for those
//! four. The menu is small on purpose: it is what every foreign host can
//! carry across an ABI.

pub mod handle;
pub mod kind;
pub mod value;

mod private;

use self::{handle::ReplyHandle, kind::Kind, value::Value};
use crate::boundary::{
    codec::{whole, Decode, DecodeError, Encode},
    pending::Pending,
};
use vstd::prelude::*;

verus! {

/// A reply's form on the wire. Sealed: the impls below are the menu, and
/// nothing outside this crate can add to it.
pub trait Reply: private::Sealed + Sized + View {
    /// The entry of the menu this type is.
    spec fn kind_spec() -> Kind;

    /// How a value of this type sits in the mailbox.
    spec fn value_spec(self) -> Value;

    /// What a mailbox value reads as: `None` if it is of another kind.
    spec fn from_value_spec(value: Value) -> Option<Self>;

    /// A value read back from the mailbox is the value put in, and of this
    /// type's kind.
    proof fn lemma_round_trip(x: Self)
        ensures
            Self::from_value_spec(x.value_spec()) == Some(x),
            x.value_spec().kind_spec() == Self::kind_spec(),
    ;

    /// A mailbox value reads as this type exactly when it is of its kind.
    proof fn lemma_reads_its_kind(value: Value)
        ensures
            Self::from_value_spec(value) is Some <==> value.kind_spec() == Self::kind_spec(),
    ;

    /// The entry of the menu this type is.
    fn wire_kind() -> (k: Kind)
        ensures
            k == Self::kind_spec(),
    ;

    /// Wrap for the mailbox.
    fn into_value(self) -> (v: Value)
        ensures
            v == self.value_spec(),
    ;

    /// `None` if the value is of another kind.
    fn from_value(value: Value) -> (r: Option<Self>)
        ensures
            r == Self::from_value_spec(value),
    ;

    /// Borrow the value as this kind, or `None` if it is of another.
    fn from_value_ref(value: &Value) -> (r: Option<&Self>)
        ensures
            (r is Some) == (Self::from_value_spec(*value) is Some),
            r matches Some(x) ==> Self::from_value_spec(*value) == Some(*x),
    ;

    /// Wrap a handle for the host layer's table.
    fn into_pending(reply: ReplyHandle<Self>) -> (p: Pending)
        ensures
            p.kind_spec() == Self::kind_spec(),
            p.id_spec() == reply.id_spec(),
            p.driver_spec() == reply.driver_spec(),
    ;

    /// Unwrap a pending handle of this kind, or hand it back untouched if it
    /// awaits another kind.
    fn from_pending(pending: Pending) -> (r: Result<ReplyHandle<Self>, Pending>)
        ensures
            pending.kind_spec() == Self::kind_spec() ==> (r matches Ok(h) && h.id_spec()
                == pending.id_spec() && h.driver_spec() == pending.driver_spec()),
            pending.kind_spec() != Self::kind_spec() ==> r == Err::<ReplyHandle<Self>, Pending>(
                pending,
            ),
    ;
}

/// What a routine's wait resolves to, and how it crosses: as one of the four
/// [`Reply`] kinds. The wire kinds answer as themselves; a `Result` or an
/// `Option` crosses as `bytes`, in the codec's encoding.
pub trait Answer: Sized {
    /// The kind this answer crosses as.
    type Wire: Reply;

    /// What contracts take an answer as.
    type Seen;

    /// This answer as contracts take it.
    spec fn seen(&self) -> Self::Seen;

    /// Whether this answer can cross: every payload in it shorter than
    /// 4 GiB.
    spec fn crosses(&self) -> bool;

    /// This answer's wire form, by its view.
    spec fn wire_of(&self) -> <Self::Wire as View>::V;

    /// An answer read back from a wire form: what it is taken as, or why it
    /// is not one.
    spec fn from_wire_of(wire: <Self::Wire as View>::V) -> Result<Self::Seen, DecodeError>;

    /// Whether this answer can cross, found at run time.
    fn can_cross(&self) -> (b: bool)
        ensures
            b == self.crosses(),
    ;

    /// This answer in its wire form.
    fn into_wire(self) -> (w: Self::Wire)
        requires
            self.crosses(),
        ensures
            w@ == self.wire_of(),
    ;

    /// Read an answer back from its wire form.
    fn from_wire(wire: Self::Wire) -> (r: Result<Self, DecodeError>)
        ensures
            Self::from_wire_of(wire@) == match r {
                Ok(a) => Ok(a.seen()),
                Err(e) => Err(e),
            },
    ;

    /// Whether `wire` holds a valid answer, without keeping it.
    fn check(wire: &Self::Wire) -> (r: Result<(), DecodeError>)
        ensures
            (r is Ok) == (Self::from_wire_of(wire@) is Ok),
            r matches Err(e) ==> Self::from_wire_of(wire@) == Err::<Self::Seen, DecodeError>(e),
    ;

    /// Wrap a handle for the host layer's table, under its wire kind.
    fn pending(reply: ReplyHandle<Self>) -> (p: Pending)
        ensures
            p.kind_spec() == <Self::Wire as Reply>::kind_spec(),
            p.id_spec() == reply.id_spec(),
            p.driver_spec() == reply.driver_spec(),
    {
        Self::Wire::into_pending(reply.retype())
    }
}

impl Reply for Vec<u8> {
    open spec fn kind_spec() -> Kind {
        Kind::Bytes
    }

    open spec fn value_spec(self) -> Value {
        Value::Bytes(self)
    }

    open spec fn from_value_spec(value: Value) -> Option<Self> {
        match value {
            Value::Bytes(v) => Some(v),
            _ => None,
        }
    }

    proof fn lemma_round_trip(x: Self) {
    }

    proof fn lemma_reads_its_kind(value: Value) {
    }

    fn wire_kind() -> (k: Kind) {
        Kind::Bytes
    }

    fn into_value(self) -> (v: Value) {
        Value::Bytes(self)
    }

    fn from_value(value: Value) -> (r: Option<Self>) {
        match value {
            Value::Bytes(v) => Some(v),
            Value::Str(_) | Value::U64(_) | Value::Unit => None,
        }
    }

    fn from_value_ref(value: &Value) -> (r: Option<&Self>) {
        match value {
            Value::Bytes(v) => Some(v),
            Value::Str(_) | Value::U64(_) | Value::Unit => None,
        }
    }

    fn into_pending(reply: ReplyHandle<Self>) -> (p: Pending) {
        Pending::Bytes(reply)
    }

    fn from_pending(pending: Pending) -> (r: Result<ReplyHandle<Self>, Pending>) {
        match pending {
            Pending::Bytes(r) => Ok(r),
            other => Err(other),
        }
    }
}

impl Reply for String {
    open spec fn kind_spec() -> Kind {
        Kind::Str
    }

    open spec fn value_spec(self) -> Value {
        Value::Str(self)
    }

    open spec fn from_value_spec(value: Value) -> Option<Self> {
        match value {
            Value::Str(v) => Some(v),
            _ => None,
        }
    }

    proof fn lemma_round_trip(x: Self) {
    }

    proof fn lemma_reads_its_kind(value: Value) {
    }

    fn wire_kind() -> (k: Kind) {
        Kind::Str
    }

    fn into_value(self) -> (v: Value) {
        Value::Str(self)
    }

    fn from_value(value: Value) -> (r: Option<Self>) {
        match value {
            Value::Str(v) => Some(v),
            Value::Bytes(_) | Value::U64(_) | Value::Unit => None,
        }
    }

    fn from_value_ref(value: &Value) -> (r: Option<&Self>) {
        match value {
            Value::Str(v) => Some(v),
            Value::Bytes(_) | Value::U64(_) | Value::Unit => None,
        }
    }

    fn into_pending(reply: ReplyHandle<Self>) -> (p: Pending) {
        Pending::Str(reply)
    }

    fn from_pending(pending: Pending) -> (r: Result<ReplyHandle<Self>, Pending>) {
        match pending {
            Pending::Str(r) => Ok(r),
            other => Err(other),
        }
    }
}

impl Reply for u64 {
    open spec fn kind_spec() -> Kind {
        Kind::U64
    }

    open spec fn value_spec(self) -> Value {
        Value::U64(self)
    }

    open spec fn from_value_spec(value: Value) -> Option<Self> {
        match value {
            Value::U64(v) => Some(v),
            _ => None,
        }
    }

    proof fn lemma_round_trip(x: Self) {
    }

    proof fn lemma_reads_its_kind(value: Value) {
    }

    fn wire_kind() -> (k: Kind) {
        Kind::U64
    }

    fn into_value(self) -> (v: Value) {
        Value::U64(self)
    }

    fn from_value(value: Value) -> (r: Option<Self>) {
        match value {
            Value::U64(v) => Some(v),
            Value::Bytes(_) | Value::Str(_) | Value::Unit => None,
        }
    }

    fn from_value_ref(value: &Value) -> (r: Option<&Self>) {
        match value {
            Value::U64(v) => Some(v),
            Value::Bytes(_) | Value::Str(_) | Value::Unit => None,
        }
    }

    fn into_pending(reply: ReplyHandle<Self>) -> (p: Pending) {
        Pending::U64(reply)
    }

    fn from_pending(pending: Pending) -> (r: Result<ReplyHandle<Self>, Pending>) {
        match pending {
            Pending::U64(r) => Ok(r),
            other => Err(other),
        }
    }
}

impl Reply for () {
    open spec fn kind_spec() -> Kind {
        Kind::Unit
    }

    open spec fn value_spec(self) -> Value {
        Value::Unit
    }

    open spec fn from_value_spec(value: Value) -> Option<Self> {
        match value {
            Value::Unit => Some(()),
            _ => None,
        }
    }

    proof fn lemma_round_trip(x: Self) {
    }

    proof fn lemma_reads_its_kind(value: Value) {
    }

    fn wire_kind() -> (k: Kind) {
        Kind::Unit
    }

    fn into_value(self) -> (v: Value) {
        Value::Unit
    }

    fn from_value(value: Value) -> (r: Option<Self>) {
        match value {
            Value::Unit => Some(()),
            Value::Bytes(_) | Value::Str(_) | Value::U64(_) => None,
        }
    }

    fn from_value_ref(value: &Value) -> (r: Option<&Self>) {
        match value {
            Value::Unit => Some(&()),
            Value::Bytes(_) | Value::Str(_) | Value::U64(_) => None,
        }
    }

    fn into_pending(reply: ReplyHandle<Self>) -> (p: Pending) {
        Pending::Unit(reply)
    }

    fn from_pending(pending: Pending) -> (r: Result<ReplyHandle<Self>, Pending>) {
        match pending {
            Pending::Unit(r) => Ok(r),
            other => Err(other),
        }
    }
}

impl Answer for Vec<u8> {
    type Wire = Self;

    type Seen = Seq<u8>;

    open spec fn seen(&self) -> Seq<u8> {
        self@
    }

    open spec fn crosses(&self) -> bool {
        true
    }

    open spec fn wire_of(&self) -> Seq<u8> {
        self@
    }

    open spec fn from_wire_of(wire: Seq<u8>) -> Result<Seq<u8>, DecodeError> {
        Ok(wire)
    }

    fn can_cross(&self) -> (b: bool) {
        true
    }

    fn into_wire(self) -> (w: Self) {
        self
    }

    fn from_wire(wire: Self) -> (r: Result<Self, DecodeError>) {
        Ok(wire)
    }

    fn check(wire: &Self) -> (r: Result<(), DecodeError>) {
        Ok(())
    }
}

impl Answer for String {
    type Wire = Self;

    type Seen = Seq<char>;

    open spec fn seen(&self) -> Seq<char> {
        self@
    }

    open spec fn crosses(&self) -> bool {
        true
    }

    open spec fn wire_of(&self) -> Seq<char> {
        self@
    }

    open spec fn from_wire_of(wire: Seq<char>) -> Result<Seq<char>, DecodeError> {
        Ok(wire)
    }

    fn can_cross(&self) -> (b: bool) {
        true
    }

    fn into_wire(self) -> (w: Self) {
        self
    }

    fn from_wire(wire: Self) -> (r: Result<Self, DecodeError>) {
        Ok(wire)
    }

    fn check(wire: &Self) -> (r: Result<(), DecodeError>) {
        Ok(())
    }
}

impl Answer for u64 {
    type Wire = Self;

    type Seen = u64;

    open spec fn seen(&self) -> u64 {
        self@
    }

    open spec fn crosses(&self) -> bool {
        true
    }

    open spec fn wire_of(&self) -> u64 {
        self@
    }

    open spec fn from_wire_of(wire: u64) -> Result<u64, DecodeError> {
        Ok(wire)
    }

    fn can_cross(&self) -> (b: bool) {
        true
    }

    fn into_wire(self) -> (w: Self) {
        self
    }

    fn from_wire(wire: Self) -> (r: Result<Self, DecodeError>) {
        Ok(wire)
    }

    fn check(wire: &Self) -> (r: Result<(), DecodeError>) {
        Ok(())
    }
}

impl Answer for () {
    type Wire = Self;

    type Seen = ();

    open spec fn seen(&self) -> () {
        self@
    }

    open spec fn crosses(&self) -> bool {
        true
    }

    open spec fn wire_of(&self) -> () {
        self@
    }

    open spec fn from_wire_of(wire: ()) -> Result<(), DecodeError> {
        Ok(wire)
    }

    fn can_cross(&self) -> (b: bool) {
        true
    }

    fn into_wire(self) -> (w: Self) {
        self
    }

    fn from_wire(wire: Self) -> (r: Result<Self, DecodeError>) {
        Ok(wire)
    }

    fn check(wire: &Self) -> (r: Result<(), DecodeError>) {
        Ok(())
    }
}

/// A result crosses as `bytes`: its encoding.
impl<T: Encode + Decode, E: Encode + Decode> Answer for Result<T, E> {
    type Wire = Vec<u8>;

    type Seen = Result<T::Model, E::Model>;

    open spec fn seen(&self) -> Result<T::Model, E::Model> {
        self.model()
    }

    open spec fn crosses(&self) -> bool {
        self.encodable()
    }

    open spec fn wire_of(&self) -> Seq<u8> {
        self.encoding()
    }

    open spec fn from_wire_of(wire: Seq<u8>) -> Result<Result<T::Model, E::Model>, DecodeError> {
        whole(<Result<T, E> as Decode>::decoding(wire))
    }

    fn can_cross(&self) -> (b: bool) {
        self.fits()
    }

    fn into_wire(self) -> (w: Vec<u8>) {
        self.to_bytes()
    }

    fn from_wire(wire: Vec<u8>) -> (r: Result<Self, DecodeError>) {
        Self::from_bytes(wire.as_slice())
    }

    fn check(wire: &Vec<u8>) -> (r: Result<(), DecodeError>) {
        match Self::from_bytes(wire.as_slice()) {
            Ok(_) => Ok(()),
            Err(e) => Err(e),
        }
    }
}

/// An option crosses as `bytes`: its encoding.
impl<T: Encode + Decode> Answer for Option<T> {
    type Wire = Vec<u8>;

    type Seen = Option<T::Model>;

    open spec fn seen(&self) -> Option<T::Model> {
        self.model()
    }

    open spec fn crosses(&self) -> bool {
        self.encodable()
    }

    open spec fn wire_of(&self) -> Seq<u8> {
        self.encoding()
    }

    open spec fn from_wire_of(wire: Seq<u8>) -> Result<Option<T::Model>, DecodeError> {
        whole(<Option<T> as Decode>::decoding(wire))
    }

    fn can_cross(&self) -> (b: bool) {
        self.fits()
    }

    fn into_wire(self) -> (w: Vec<u8>) {
        self.to_bytes()
    }

    fn from_wire(wire: Vec<u8>) -> (r: Result<Self, DecodeError>) {
        Self::from_bytes(wire.as_slice())
    }

    fn check(wire: &Vec<u8>) -> (r: Result<(), DecodeError>) {
        match Self::from_bytes(wire.as_slice()) {
            Ok(_) => Ok(()),
            Err(e) => Err(e),
        }
    }
}

/// Whether a delivered value is a valid `A`: the check a mailbox slot runs
/// before it accepts a reply. The value is of the wire kind the slot was
/// minted for.
pub fn check<A: Answer>(value: &Value) -> (r: Result<(), DecodeError>)
    requires
        value.kind_spec() == <A::Wire as Reply>::kind_spec(),
    ensures
        <A::Wire as Reply>::from_value_spec(*value) matches Some(w) && (r is Ok) == (A::from_wire_of(
            w@,
        ) is Ok) && (r matches Err(e) ==> A::from_wire_of(w@) == Err::<A::Seen, DecodeError>(e)),
{
    proof {
        <A::Wire as Reply>::lemma_reads_its_kind(*value);
    }
    match <A::Wire as Reply>::from_value_ref(value) {
        Some(wire) => A::check(wire),
        None => {
            proof {
                assert(false);
            }
            Ok(())
        },
    }
}

} // verus!

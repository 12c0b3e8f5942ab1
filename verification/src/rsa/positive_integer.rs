//! Positive integers that a native arithmetic engine holds.

use crate::der;
use crate::error::Unspecified;
use crate::input::{input_bytes, unread};
use vstd::prelude::*;

verus! {

/// The owner of one number that a native arithmetic engine holds.
///
/// The engine hands out a handle, an address that is never null, for each
/// number that it allocates, and wants it back once, to free the number. A
/// `PositiveInteger` holds the handle of a number built from bytes that spell a
/// positive integer in the shortest form, until the handle is taken out with
/// [`PositiveInteger::into_raw`] or [`PositiveInteger::release`]. It cannot be
/// copied, so a handle has one owner at a time.
pub struct PositiveInteger {
    value: Option<usize>,
    bytes: Ghost<Seq<u8>>,
}

impl PositiveInteger {
    #[verifier::type_invariant]
    closed spec fn well_formed(self) -> bool {
        self.value != Some(0usize) && der::is_positive_integer(self.bytes@)
    }

    /// The handle that the integer owns, if it still owns one.
    pub closed spec fn handle(self) -> Option<usize> {
        self.value
    }

    /// The bytes that the integer was built from, most significant byte
    /// first: the number that its handle stands for.
    pub closed spec fn bytes(self) -> Seq<u8> {
        self.bytes@
    }

    /// What becomes of an allocation: where the engine returned null for
    /// `bytes`, the allocation failed, and otherwise the new integer owns what
    /// the engine returned.
    pub open spec fn from_raw_post(raw: usize, bytes: Seq<u8>, r: Result<PositiveInteger, Unspecified>) -> bool {
        match r {
            Ok(integer) => raw != 0 && integer.handle() == Some(raw) && integer.bytes() == bytes,
            Err(_) => raw == 0,
        }
    }

    /// How [`PositiveInteger::into_raw`] changes an integer: it gives up the
    /// handle that it owned.
    pub open spec fn into_raw_post(before: PositiveInteger, raw: usize, after: PositiveInteger) -> bool {
        &&& before.handle() == Some(raw)
        &&& raw != 0
        &&& after.handle() is None
        &&& after.bytes() == before.bytes()
    }

    /// How [`PositiveInteger::release`] changes an integer: it gives up the
    /// handle if it owned one.
    pub open spec fn release_post(before: PositiveInteger, released: Option<usize>, after: PositiveInteger) -> bool {
        &&& released == before.handle()
        &&& released != Some(0usize)
        &&& after.handle() is None
        &&& after.bytes() == before.bytes()
    }

    /// Takes ownership of what the engine returned when it was asked for the
    /// number that `bytes` spell. Null is a failed allocation.
    fn from_raw(raw: usize, Ghost(bytes): Ghost<Seq<u8>>) -> (r: Result<PositiveInteger, Unspecified>)
        requires
            der::is_positive_integer(bytes),
        ensures
            Self::from_raw_post(raw, bytes, r),
    {
        if raw == 0 {
            return Err(Unspecified);
        }
        Ok(PositiveInteger { value: Some(raw), bytes: Ghost(bytes) })
    }

    /// Parses one DER `INTEGER`, which must be positive, and has the engine
    /// allocate the number.
    ///
    /// Fails where the input does not start with such an integer, and then
    /// `allocate` is not called. Otherwise the reader stands behind the
    /// integer, `allocate` was called once with its contents, and
    /// [`PositiveInteger::from_raw_post`] says what became of what it
    /// returned.
    pub fn from_der<'a, F>(input: &mut untrusted::Reader<'a>, allocate: F) -> (r: Result<
        PositiveInteger,
        Unspecified,
    >) where F: FnOnce(&'a [u8]) -> usize
        requires
            forall|bytes: &'a [u8]|
                (der::spec_positive_integer(unread(*old(input))) matches Some((contents, _)) && bytes@
                    == contents) ==> call_requires(allocate, (bytes,)),
        ensures
            unread(*final(input)).is_suffix_of(unread(*old(input))),
            match der::spec_positive_integer(unread(*old(input))) {
                Some((contents, rest)) => {
                    &&& unread(*final(input)) == rest
                    &&& exists|bytes: &'a [u8], raw: usize|
                        {
                            &&& bytes@ == contents
                            &&& #[trigger] call_ensures(allocate, (bytes,), raw)
                            &&& Self::from_raw_post(raw, contents, r)
                        }
                },
                None => r is Err,
            },
    {
        Self::from_be_bytes(der::positive_integer(input)?, allocate)
    }

    /// Turns big-endian bytes into a positive integer that the engine holds.
    ///
    /// Fails where `input` is empty or starts with a zero byte, and then
    /// `allocate` is not called. Otherwise `allocate` was called once with the
    /// bytes of `input`, and [`PositiveInteger::from_raw_post`] says what
    /// became of what it returned.
    pub fn from_be_bytes<'a, F>(input: untrusted::Input<'a>, allocate: F) -> (r: Result<
        PositiveInteger,
        Unspecified,
    >) where F: FnOnce(&'a [u8]) -> usize
        requires
            forall|bytes: &'a [u8]|
                (der::is_positive_integer(input_bytes(input)) && bytes@ == input_bytes(input)) ==> call_requires(
                    allocate,
                    (bytes,),
                ),
        ensures
            if der::is_positive_integer(input_bytes(input)) {
                exists|bytes: &'a [u8], raw: usize|
                    {
                        &&& bytes@ == input_bytes(input)
                        &&& #[trigger] call_ensures(allocate, (bytes,), raw)
                        &&& Self::from_raw_post(raw, input_bytes(input), r)
                    }
            } else {
                r is Err
            },
    {
        if input.len() == 0 {
            return Err(Unspecified);
        }
        // A leading zero byte is either padding or the whole of the value zero.
        if untrusted::Reader::new(input).peek(0) {
            return Err(Unspecified);
        }
        let raw = allocate(input.as_slice_less_safe());
        Self::from_raw(raw, Ghost(input_bytes(input)))
    }

    /// Whether the integer still owns a handle. Whether or not, the bytes
    /// that it was built from spell a positive integer in the shortest form.
    pub fn owns_handle(&self) -> (owns: bool)
        ensures
            owns == self.handle() is Some,
            der::is_positive_integer(self.bytes()),
    {
        proof {
            use_type_invariant(self);
        }
        self.value.is_some()
    }

    /// The handle, for the engine to read the number. The integer keeps it.
    pub fn as_ref(&self) -> (raw: &usize)
        requires
            self.handle() is Some,
        ensures
            self.handle() == Some(*raw),
            *raw != 0,
            der::is_positive_integer(self.bytes()),
    {
        proof {
            use_type_invariant(self);
        }
        self.value.as_ref().unwrap()
    }

    /// Hands the handle over to the caller, who from then on owes the engine
    /// its release. The integer owns nothing afterwards.
    pub fn into_raw(&mut self) -> (raw: usize)
        requires
            old(self).handle() is Some,
        ensures
            Self::into_raw_post(*old(self), raw, *final(self)),
    {
        proof {
            use_type_invariant(&*self);
        }
        let res = self.value.unwrap();
        self.value = None;
        res
    }

    /// What is to be done when the integer is destroyed: the handle to hand
    /// to the engine's free routine, if the integer still owns one. The
    /// integer owns nothing afterwards, so a second call releases nothing.
    pub fn release(&mut self) -> (released: Option<usize>)
        ensures
            Self::release_post(*old(self), released, *final(self)),
    {
        proof {
            use_type_invariant(&*self);
        }
        match self.value {
            Some(val) => {
                self.value = None;
                Some(val)
            },
            None => None,
        }
    }
}

/// A handle that was handed over is not released by the integer: after
/// [`PositiveInteger::into_raw`], destroying the integer frees nothing.
pub proof fn lemma_handed_over_is_not_released(
    before: PositiveInteger,
    raw: usize,
    between: PositiveInteger,
    released: Option<usize>,
    after: PositiveInteger,
)
    requires
        PositiveInteger::into_raw_post(before, raw, between),
        PositiveInteger::release_post(between, released, after),
    ensures
        released is None,
{
}

/// A handle is released at most once: after a first
/// [`PositiveInteger::release`], a second releases nothing.
pub proof fn lemma_released_at_most_once(
    before: PositiveInteger,
    first: Option<usize>,
    between: PositiveInteger,
    second: Option<usize>,
    after: PositiveInteger,
)
    requires
        PositiveInteger::release_post(before, first, between),
        PositiveInteger::release_post(between, second, after),
    ensures
        second is None,
{
}

/// What the engine allocated is released: where the engine returned null,
/// construction fails and nothing is owned, so null is never freed; where it
/// returned a handle, construction succeeds, and destroying the integer
/// releases exactly that handle.
pub proof fn lemma_allocated_is_released(
    raw: usize,
    bytes: Seq<u8>,
    r: Result<PositiveInteger, Unspecified>,
    released: Option<usize>,
    after: PositiveInteger,
)
    requires
        PositiveInteger::from_raw_post(raw, bytes, r),
        r matches Ok(integer) ==> PositiveInteger::release_post(integer, released, after),
    ensures
        r is Err <==> raw == 0,
        r is Ok ==> released == Some(raw),
{
}

} // verus!

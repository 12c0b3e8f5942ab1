//! What Verus is told about the `untrusted` crate.
//!
//! `untrusted::Input` wraps a byte slice and `untrusted::Reader` is a cursor
//! that only moves forward over one. Both are opaque here. Two names stand for
//! what they hold, and each method that this library calls is given the
//! contract that its source shows. None of these contracts is proved.

use vstd::prelude::*;

verus! {

/// `untrusted::Input`, a wrapper of a byte slice. [`input_bytes`] stands for
/// the bytes.
#[verifier::external_type_specification]
#[verifier::external_body]
pub struct ExInput<'a>(untrusted::Input<'a>);

/// `untrusted::Reader`, a position in an input. [`unread`] stands for the
/// bytes from that position on.
#[verifier::external_type_specification]
#[verifier::external_body]
pub struct ExReader<'a>(untrusted::Reader<'a>);

/// `untrusted::EndOfInput`, the error of a reader that has too few bytes
/// left. It holds nothing.
#[verifier::external_type_specification]
#[verifier::external_body]
pub struct ExEndOfInput(untrusted::EndOfInput);

/// The bytes that an `Input` wraps.
pub uninterp spec fn input_bytes(input: untrusted::Input) -> Seq<u8>;

/// The bytes that a `Reader` has not read yet.
pub uninterp spec fn unread(reader: untrusted::Reader) -> Seq<u8>;

/// `Input::len` is the number of bytes that the input holds.
pub assume_specification<'a>[ untrusted::Input::<'a>::len ](input: &untrusted::Input<'a>) -> (len: usize)
    ensures
        len == input_bytes(*input).len(),
;

/// `Input::read_all` makes a reader over the input, calls `read` on it once,
/// and hands on what `read` returned, unless `read` succeeded and left bytes
/// unread: then it returns `incomplete_read`. So a success is a success of
/// `read` that read everything, and a failure is a failure of `read`, or
/// `incomplete_read` after a success of `read` that left bytes unread.
pub assume_specification<'a, F, R, E>[ untrusted::Input::<'a>::read_all ](
    input: &untrusted::Input<'a>,
    incomplete_read: E,
    read: F,
) -> (r: Result<R, E>) where F: FnOnce(&mut untrusted::Reader<'a>) -> Result<R, E>
    requires
        forall|reader: &mut untrusted::Reader<'a>|
            unread(*reader) == input_bytes(*input) ==> call_requires(read, (reader,)),
    ensures
        match r {
            Ok(value) => exists|reader: &mut untrusted::Reader<'a>|
                {
                    &&& #[trigger] unread(*reader) == input_bytes(*input)
                    &&& call_ensures(read, (reader,), Ok(value))
                    &&& unread(*final(reader)).len() == 0
                },
            Err(e) => exists|reader: &mut untrusted::Reader<'a>|
                {
                    &&& #[trigger] unread(*reader) == input_bytes(*input)
                    &&& {
                        ||| call_ensures(read, (reader,), Err(e))
                        ||| e == incomplete_read && unread(*final(reader)).len() > 0 && exists|value: R|
                            #[trigger] call_ensures(read, (reader,), Ok(value))
                    }
                },
        },
;

/// `Input::as_slice_less_safe` hands out the wrapped slice.
pub assume_specification<'a>[ untrusted::Input::<'a>::as_slice_less_safe ](
    input: &untrusted::Input<'a>,
) -> (bytes: &'a [u8])
    ensures
        bytes@ == input_bytes(*input),
;

/// `Reader::new` starts at the first byte of the input: nothing is read yet.
pub assume_specification<'a>[ untrusted::Reader::<'a>::new ](input: untrusted::Input<'a>) -> (reader:
    untrusted::Reader<'a>)
    ensures
        unread(reader) == input_bytes(input),
;

/// `Reader::peek` tells whether there is a next byte and it equals `b`. The
/// reader does not move.
pub assume_specification<'a>[ untrusted::Reader::<'a>::peek ](reader: &untrusted::Reader<'a>, b: u8) -> (same:
    bool)
    ensures
        same == (unread(*reader).len() > 0 && unread(*reader)[0] == b),
;

/// `Reader::read_byte` hands out the next byte and moves past it, or fails at
/// the end of the input and stays where it is. A reader holds a slice and an
/// index into it, so what is unread is part of a slice and its length fits in
/// `usize`.
pub assume_specification<'a>[ untrusted::Reader::<'a>::read_byte ](reader: &mut untrusted::Reader<'a>) -> (r:
    Result<u8, untrusted::EndOfInput>)
    ensures
        unread(*old(reader)).len() <= usize::MAX,
        match r {
            Ok(b) => {
                &&& unread(*old(reader)).len() > 0
                &&& b == unread(*old(reader))[0]
                &&& unread(*final(reader)) == unread(*old(reader)).skip(1)
            },
            Err(_) => unread(*old(reader)).len() == 0 && unread(*final(reader)) == unread(*old(reader)),
        },
;

/// `Reader::read_bytes` hands out the next `num_bytes` bytes as an input and
/// moves past them, or fails where fewer are left and stays where it is.
pub assume_specification<'a>[ untrusted::Reader::<'a>::read_bytes ](
    reader: &mut untrusted::Reader<'a>,
    num_bytes: usize,
) -> (r: Result<untrusted::Input<'a>, untrusted::EndOfInput>)
    ensures
        match r {
            Ok(bytes) => {
                &&& num_bytes <= unread(*old(reader)).len()
                &&& input_bytes(bytes) == unread(*old(reader)).take(num_bytes as int)
                &&& unread(*final(reader)) == unread(*old(reader)).skip(num_bytes as int)
            },
            Err(_) => num_bytes > unread(*old(reader)).len() && unread(*final(reader)) == unread(*old(reader)),
        },
;

} // verus!

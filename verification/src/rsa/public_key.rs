//! RSA public keys as DER: `SEQUENCE { n INTEGER, e INTEGER }`.

use crate::der;
use crate::der::Tag;
use crate::encoding::{
    encode_value, is_encodable_length, lemma_lengths_in_memory_are_encodable, lemma_value_round_trip,
    lemma_value_unique,
};
use crate::error::Unspecified;
use crate::input::{input_bytes, unread};
use vstd::prelude::*;

verus! {

/// The two positive integers at the start of `s`, and what follows them.
pub open spec fn spec_two_integers(s: Seq<u8>) -> Option<((Seq<u8>, Seq<u8>), Seq<u8>)> {
    match der::spec_positive_integer(s) {
        Some((n, after_n)) => match der::spec_positive_integer(after_n) {
            Some((e, after_e)) => Some(((n, e), after_e)),
            None => None,
        },
        None => None,
    }
}

/// The `SEQUENCE` of exactly two positive integers at the start of `s`, and
/// what follows it.
pub open spec fn spec_key_sequence(s: Seq<u8>) -> Option<((Seq<u8>, Seq<u8>), Seq<u8>)> {
    match der::spec_value(s, Tag::Sequence) {
        Some((contents, rest)) => match spec_two_integers(contents) {
            Some((key, left)) => if left.len() == 0 {
                Some((key, rest))
            } else {
                None
            },
            None => None,
        },
        None => None,
    }
}

/// The modulus and the public exponent of the key that `s` encodes: `s` is one
/// `SEQUENCE`, with nothing behind it, of two positive integers, with nothing
/// behind them.
pub open spec fn spec_parse_public_key(s: Seq<u8>) -> Option<(Seq<u8>, Seq<u8>)> {
    match spec_key_sequence(s) {
        Some((key, rest)) => if rest.len() == 0 {
            Some(key)
        } else {
            None
        },
        None => None,
    }
}

/// The DER encoding of the public key with modulus `n` and public exponent
/// `e`: a `SEQUENCE` of the two as `INTEGER`s.
pub open spec fn encode_public_key(n: Seq<u8>, e: Seq<u8>) -> Seq<u8> {
    encode_value(Tag::Sequence, encode_value(Tag::Integer, n) + encode_value(Tag::Integer, e))
}

/// Whether `s` is the encoding of the public key with modulus `n` and public
/// exponent `e`: both are positive integers in the shortest form, and DER can
/// write the lengths involved.
pub open spec fn is_public_key_encoding(s: Seq<u8>, n: Seq<u8>, e: Seq<u8>) -> bool {
    &&& der::is_positive_integer(n)
    &&& der::is_positive_integer(e)
    &&& is_encodable_length(n.len())
    &&& is_encodable_length(e.len())
    &&& is_encodable_length((encode_value(Tag::Integer, n) + encode_value(Tag::Integer, e)).len())
    &&& s == encode_public_key(n, e)
}

/// What [`parse_public_key`] returns for an input that holds `s`: the two
/// integers of the key that `s` encodes, or an error where `s` encodes none.
pub open spec fn parse_public_key_post(
    s: Seq<u8>,
    r: Result<(untrusted::Input, untrusted::Input), Unspecified>,
) -> bool {
    match r {
        Ok((n, e)) => spec_parse_public_key(s) == Some((input_bytes(n), input_bytes(e))),
        Err(_) => spec_parse_public_key(s) is None,
    }
}

/// Parses the DER encoding of an RSA public key, `SEQUENCE { n, e }`, and
/// returns the bytes of the modulus and of the public exponent, in that order.
///
/// Succeeds exactly on the encoding of a key of two positive integers, and
/// returns those two.
pub fn parse_public_key<'a>(input: untrusted::Input<'a>) -> (r: Result<
    (untrusted::Input<'a>, untrusted::Input<'a>),
    Unspecified,
>)
    ensures
        parse_public_key_post(input_bytes(input), r),
        match r {
            Ok((n, e)) => is_public_key_encoding(input_bytes(input), input_bytes(n), input_bytes(e)),
            Err(_) => forall|n: Seq<u8>, e: Seq<u8>| !#[trigger] is_public_key_encoding(input_bytes(input), n, e),
        },
{
    proof {
        let s = input_bytes(input);
        if spec_parse_public_key(s) is Some {
            lemma_encoding_of_parse(s);
        }
        assert forall|n: Seq<u8>, e: Seq<u8>| #[trigger]
            is_public_key_encoding(s, n, e) implies spec_parse_public_key(s) == Some((n, e)) by {
            lemma_parse_of_encoding(s, n, e);
        }
    }
    input.read_all(
        Unspecified,
        |input: &mut untrusted::Reader<'a>| -> (r: Result<(untrusted::Input<'a>, untrusted::Input<'a>), Unspecified>)
            ensures
                match r {
                    Ok((n, e)) => spec_key_sequence(unread(*old(input))) == Some(
                        ((input_bytes(n), input_bytes(e)), unread(*final(input))),
                    ),
                    Err(_) => spec_key_sequence(unread(*old(input))) is None,
                },
            {
                der::nested(
                    input,
                    Tag::Sequence,
                    Unspecified,
                    |input: &mut untrusted::Reader<'a>| -> (r: Result<
                        (untrusted::Input<'a>, untrusted::Input<'a>),
                        Unspecified,
                    >)
                        ensures
                            match r {
                                Ok((n, e)) => spec_two_integers(unread(*old(input))) == Some(
                                    ((input_bytes(n), input_bytes(e)), unread(*final(input))),
                                ),
                                Err(_) => spec_two_integers(unread(*old(input))) is None,
                            },
                        {
                            let n = der::positive_integer(input)?;
                            let e = der::positive_integer(input)?;
                            Ok((n, e))
                        })
            })
}

/// The encoding of a public key of two positive integers parses to exactly
/// those two, modulus first.
pub proof fn lemma_parse_of_encoding(s: Seq<u8>, n: Seq<u8>, e: Seq<u8>)
    requires
        is_public_key_encoding(s, n, e),
    ensures
        spec_parse_public_key(s) == Some((n, e)),
{
    let second = encode_value(Tag::Integer, e);
    let body = encode_value(Tag::Integer, n) + second;
    lemma_value_round_trip(Tag::Sequence, body, Seq::empty());
    assert(s =~= encode_value(Tag::Sequence, body) + Seq::empty());
    lemma_value_round_trip(Tag::Integer, n, second);
    lemma_value_round_trip(Tag::Integer, e, Seq::empty());
    assert(second =~= second + Seq::empty());
}

/// The encoding of a public key of two positive integers that fits in memory
/// parses to exactly those two, modulus first.
pub proof fn lemma_parse_of_encoding_in_memory(n: Seq<u8>, e: Seq<u8>)
    requires
        der::is_positive_integer(n),
        der::is_positive_integer(e),
        encode_public_key(n, e).len() <= usize::MAX,
    ensures
        is_public_key_encoding(encode_public_key(n, e), n, e),
        spec_parse_public_key(encode_public_key(n, e)) == Some((n, e)),
{
    let body = encode_value(Tag::Integer, n) + encode_value(Tag::Integer, e);
    lemma_lengths_in_memory_are_encodable(n.len());
    lemma_lengths_in_memory_are_encodable(e.len());
    lemma_lengths_in_memory_are_encodable(body.len());
    lemma_parse_of_encoding(encode_public_key(n, e), n, e);
}

/// What parses to a public key is the encoding of that key and of no other:
/// nothing else is accepted.
pub proof fn lemma_encoding_of_parse(s: Seq<u8>)
    requires
        spec_parse_public_key(s) is Some,
    ensures
        ({
            let (n, e) = spec_parse_public_key(s).unwrap();
            is_public_key_encoding(s, n, e)
        }),
{
    let (n, e) = spec_parse_public_key(s).unwrap();
    let (body, rest) = der::spec_value(s, Tag::Sequence).unwrap();
    lemma_value_unique(s, Tag::Sequence);
    assert(s =~= encode_value(Tag::Sequence, body));
    let (_, after_n) = der::spec_value(body, Tag::Integer).unwrap();
    lemma_value_unique(body, Tag::Integer);
    lemma_value_unique(after_n, Tag::Integer);
    assert(after_n =~= encode_value(Tag::Integer, e));
}

/// An input that does not start with the octet of `SEQUENCE`, the empty input
/// among them, is no public key.
pub proof fn lemma_rejects_other_tag(s: Seq<u8>)
    requires
        s.len() == 0 || s[0] != Tag::Sequence.spec_byte(),
    ensures
        spec_parse_public_key(s) is None,
{
}

/// A `SEQUENCE` of one integer is no public key.
pub proof fn lemma_rejects_one_integer(n: Seq<u8>)
    requires
        is_encodable_length(n.len()),
        is_encodable_length(encode_value(Tag::Integer, n).len()),
    ensures
        spec_parse_public_key(encode_value(Tag::Sequence, encode_value(Tag::Integer, n))) is None,
{
    let body = encode_value(Tag::Integer, n);
    let s = encode_value(Tag::Sequence, body);
    lemma_value_round_trip(Tag::Sequence, body, Seq::empty());
    assert(s =~= s + Seq::empty());
    lemma_value_round_trip(Tag::Integer, n, Seq::empty());
    assert(body =~= body + Seq::empty());
}

/// A `SEQUENCE` that holds anything behind its two integers is no public
/// key.
pub proof fn lemma_rejects_third_element(n: Seq<u8>, e: Seq<u8>, third: Seq<u8>)
    requires
        third.len() > 0,
        is_encodable_length(n.len()),
        is_encodable_length(e.len()),
        is_encodable_length((encode_value(Tag::Integer, n) + encode_value(Tag::Integer, e) + third).len()),
    ensures
        spec_parse_public_key(
            encode_value(Tag::Sequence, encode_value(Tag::Integer, n) + encode_value(Tag::Integer, e) + third),
        ) is None,
{
    let first = encode_value(Tag::Integer, n);
    let second = encode_value(Tag::Integer, e);
    let body = first + second + third;
    let s = encode_value(Tag::Sequence, body);
    lemma_value_round_trip(Tag::Sequence, body, Seq::empty());
    assert(s =~= s + Seq::empty());
    lemma_value_round_trip(Tag::Integer, n, second + third);
    assert(body =~= first + (second + third));
    lemma_value_round_trip(Tag::Integer, e, third);
}

/// A public key with anything behind it is no public key.
pub proof fn lemma_rejects_trailing_bytes(s: Seq<u8>, n: Seq<u8>, e: Seq<u8>, trailing: Seq<u8>)
    requires
        is_public_key_encoding(s, n, e),
        trailing.len() > 0,
    ensures
        spec_parse_public_key(s + trailing) is None,
{
    let body = encode_value(Tag::Integer, n) + encode_value(Tag::Integer, e);
    lemma_value_round_trip(Tag::Sequence, body, trailing);
}

/// A `SEQUENCE` of two integers of which one is empty or starts with a zero
/// byte, the integer zero among them, is no public key.
pub proof fn lemma_rejects_zero_or_padded(n: Seq<u8>, e: Seq<u8>)
    requires
        !der::is_positive_integer(n) || !der::is_positive_integer(e),
        is_encodable_length(n.len()),
        is_encodable_length(e.len()),
        is_encodable_length((encode_value(Tag::Integer, n) + encode_value(Tag::Integer, e)).len()),
    ensures
        spec_parse_public_key(encode_public_key(n, e)) is None,
{
    let s = encode_public_key(n, e);
    let second = encode_value(Tag::Integer, e);
    let body = encode_value(Tag::Integer, n) + second;
    lemma_value_round_trip(Tag::Sequence, body, Seq::empty());
    assert(s =~= s + Seq::empty());
    lemma_value_round_trip(Tag::Integer, n, second);
    lemma_value_round_trip(Tag::Integer, e, Seq::empty());
    assert(second =~= second + Seq::empty());
}

/// Parsing is a function of the bytes: two runs on inputs that hold the same
/// bytes both fail, or both succeed with the same bytes for the modulus and
/// the same bytes for the exponent.
pub proof fn lemma_parse_public_key_deterministic(
    s: Seq<u8>,
    first: Result<(untrusted::Input, untrusted::Input), Unspecified>,
    second: Result<(untrusted::Input, untrusted::Input), Unspecified>,
)
    requires
        parse_public_key_post(s, first),
        parse_public_key_post(s, second),
    ensures
        match (first, second) {
            (Ok((n1, e1)), Ok((n2, e2))) => input_bytes(n1) == input_bytes(n2) && input_bytes(e1) == input_bytes(e2),
            (Err(_), Err(_)) => true,
            _ => false,
        },
{
}

} // verus!

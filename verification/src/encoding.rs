//! DER as it is written, and that reading undoes writing: each value has one
//! encoding, and the readers of [`crate::der`] accept that encoding and no
//! other.

use crate::der::{be_value, spec_header, spec_length, spec_value, Tag};
use vstd::prelude::*;

verus! {

/// The shortest octets that spell `n`, most significant octet first: none for
/// zero.
pub open spec fn be_octets(n: nat) -> Seq<u8>
    decreases n,
{
    if n == 0 {
        Seq::empty()
    } else {
        be_octets(n / 256).push((n % 256) as u8)
    }
}

/// Whether DER can write the length `len`: the long form counts the octets of
/// the length in seven bits, of which the value 127 is reserved.
pub open spec fn is_encodable_length(len: nat) -> bool {
    be_octets(len).len() <= 126
}

/// The length field for `len`: one octet below 128, and from there on the
/// count of the octets that spell `len`, with the high bit set, and those
/// octets.
pub open spec fn encode_length(len: nat) -> Seq<u8> {
    if len < 0x80 {
        seq![len as u8]
    } else {
        seq![(0x80 + be_octets(len).len()) as u8] + be_octets(len)
    }
}

/// The encoding of a value: the octet of its tag, the length of its contents,
/// and the contents.
pub open spec fn encode_value(tag: Tag, contents: Seq<u8>) -> Seq<u8> {
    seq![tag.spec_byte()] + encode_length(contents.len()) + contents
}

/// The octets of a number spell that number.
pub proof fn lemma_be_value_of_be_octets(n: nat)
    ensures
        be_value(be_octets(n)) == n,
    decreases n,
{
    if n != 0 {
        lemma_be_value_of_be_octets(n / 256);
        crate::der::lemma_be_value_push(be_octets(n / 256), (n % 256) as u8);
    }
}

/// The octets of a number other than zero start with an octet other than
/// zero.
pub proof fn lemma_be_octets_leading(n: nat)
    requires
        n > 0,
    ensures
        be_octets(n).len() > 0,
        be_octets(n)[0] != 0,
    decreases n,
{
    if n / 256 != 0 {
        lemma_be_octets_leading(n / 256);
    } else {
        assert(be_octets(n / 256).len() == 0);
    }
}

/// Octets that start with an octet other than zero spell a number other than
/// zero.
pub proof fn lemma_be_value_positive(octets: Seq<u8>)
    requires
        octets.len() > 0,
        octets[0] != 0,
    ensures
        be_value(octets) > 0,
    decreases octets.len(),
{
    if octets.len() > 1 {
        lemma_be_value_positive(octets.drop_last());
    }
}

/// Octets without a leading zero are the octets of the number they spell: a
/// number is spelled in one way only.
pub proof fn lemma_be_octets_of_be_value(octets: Seq<u8>)
    requires
        octets.len() > 0 ==> octets[0] != 0,
    ensures
        be_octets(be_value(octets)) == octets,
    decreases octets.len(),
{
    if octets.len() > 0 {
        let front = octets.drop_last();
        lemma_be_value_positive(octets);
        lemma_be_octets_of_be_value(front);
        assert(front.push(octets.last()) =~= octets);
    }
}

/// DER can write the length of whatever fits in memory: a length up to
/// `usize::MAX` takes eight octets at most.
pub proof fn lemma_lengths_in_memory_are_encodable(len: nat)
    requires
        len <= usize::MAX,
    ensures
        is_encodable_length(len),
        be_octets(len).len() <= 8,
{
    reveal_with_fuel(be_octets, 10);
    assert(len <= 0xffff_ffff_ffff_ffff);
    assert(len / 256 / 256 / 256 / 256 / 256 / 256 / 256 / 256 == 0);
}

/// Reading a length field undoes writing it, whatever follows the field.
pub proof fn lemma_length_round_trip(len: nat, rest: Seq<u8>)
    requires
        is_encodable_length(len),
    ensures
        spec_length(encode_length(len) + rest) == Some((len, encode_length(len).len())),
{
    let s = encode_length(len) + rest;
    if len >= 0x80 {
        let octets = be_octets(len);
        lemma_be_octets_leading(len);
        lemma_be_value_of_be_octets(len);
        assert(s.subrange(1, 1 + octets.len() as int) =~= octets);
    }
}

/// A length field that is read is the one that would be written for the
/// length: a length has one encoding.
pub proof fn lemma_length_unique(s: Seq<u8>)
    requires
        spec_length(s) is Some,
    ensures
        ({
            let (len, size) = spec_length(s).unwrap();
            &&& is_encodable_length(len)
            &&& size <= s.len()
            &&& s.take(size as int) == encode_length(len)
        }),
{
    let (len, size) = spec_length(s).unwrap();
    if s[0] < 0x80 {
        assert(be_octets(len).len() <= 1) by {
            reveal_with_fuel(be_octets, 2);
        }
        assert(s.take(1) =~= seq![s[0]]);
    } else {
        let count = s[0] - 0x80;
        let octets = s.subrange(1, 1 + count);
        lemma_be_octets_of_be_value(octets);
        assert(s.take(size as int) =~= seq![s[0]] + octets);
    }
}

/// Reading a value undoes writing it, whatever follows the value.
pub proof fn lemma_value_round_trip(tag: Tag, contents: Seq<u8>, rest: Seq<u8>)
    requires
        is_encodable_length(contents.len()),
    ensures
        spec_value(encode_value(tag, contents) + rest, tag) == Some((contents, rest)),
{
    let s = encode_value(tag, contents) + rest;
    let field = encode_length(contents.len());
    lemma_length_round_trip(contents.len(), contents + rest);
    assert(s.skip(1) =~= field + (contents + rest));
    let size = 1 + field.len() as int;
    assert(spec_header(s, tag) == Some((contents.len(), size as nat)));
    assert(s.subrange(size, size + contents.len()) =~= contents);
    assert(s.skip(size + contents.len()) =~= rest);
}

/// A value that is read was written as [`encode_value`] writes it: a value has
/// one encoding.
pub proof fn lemma_value_unique(s: Seq<u8>, tag: Tag)
    requires
        spec_value(s, tag) is Some,
    ensures
        ({
            let (contents, rest) = spec_value(s, tag).unwrap();
            &&& is_encodable_length(contents.len())
            &&& s == encode_value(tag, contents) + rest
        }),
{
    let (contents, rest) = spec_value(s, tag).unwrap();
    let (declared, size) = spec_header(s, tag).unwrap();
    lemma_length_unique(s.skip(1));
    assert(s.skip(1).take(size - 1) =~= s.subrange(1, size as int));
    assert(s =~= seq![tag.spec_byte()] + s.subrange(1, size as int) + contents + rest);
}

} // verus!

//! DER: tags, lengths and the values that this library reads.

use crate::error::Unspecified;
use crate::input::{input_bytes, unread};
use vstd::prelude::*;

verus! {

/// The tags of the values that this library reads or writes down.
#[derive(Clone, Copy, Debug, PartialEq, Eq)]
pub enum Tag {
    Integer,
    BitString,
    OctetString,
    Null,
    OID,
    Sequence,
}

impl Tag {
    /// The identifier octet of the tag.
    pub open spec fn spec_byte(self) -> u8 {
        match self {
            Tag::Integer => 0x02,
            Tag::BitString => 0x03,
            Tag::OctetString => 0x04,
            Tag::Null => 0x05,
            Tag::OID => 0x06,
            Tag::Sequence => 0x30,
        }
    }

    /// The identifier octet of the tag.
    #[verifier::when_used_as_spec(spec_byte)]
    pub fn byte(self) -> (b: u8)
        ensures
            b == self.spec_byte(),
    {
        match self {
            Tag::Integer => 0x02,
            Tag::BitString => 0x03,
            Tag::OctetString => 0x04,
            Tag::Null => 0x05,
            Tag::OID => 0x06,
            Tag::Sequence => 0x30,
        }
    }
}

/// The number that `octets` spell, most significant octet first.
pub open spec fn be_value(octets: Seq<u8>) -> nat
    decreases octets.len(),
{
    if octets.len() == 0 {
        0
    } else {
        be_value(octets.drop_last()) * 256 + octets.last() as nat
    }
}

/// The length field at the start of `s`: the length it declares and the number
/// of octets it takes, or `None` where `s` does not start with a DER length.
///
/// A first octet below `0x80` is the length itself. Otherwise its low seven bits
/// count the octets that follow and spell the length; `0x80` (indefinite) and
/// `0xff` (reserved) are refused. DER wants the shortest form: the long form
/// only for lengths from 128 on, and no leading zero octet.
pub open spec fn spec_length(s: Seq<u8>) -> Option<(nat, nat)> {
    if s.len() == 0 {
        None
    } else if s[0] < 0x80 {
        Some((s[0] as nat, 1))
    } else if s[0] == 0x80 || s[0] == 0xff {
        None
    } else {
        let count = s[0] - 0x80;
        if s.len() < 1 + count {
            None
        } else {
            let octets = s.subrange(1, 1 + count);
            if octets[0] == 0 || be_value(octets) < 0x80 {
                None
            } else {
                Some((be_value(octets), (1 + count) as nat))
            }
        }
    }
}

/// Appending one octet multiplies the value by 256 and adds the octet.
pub proof fn lemma_be_value_push(octets: Seq<u8>, b: u8)
    ensures
        be_value(octets.push(b)) == be_value(octets) * 256 + b,
{
    assert(octets.push(b).drop_last() =~= octets);
}

/// A sequence of octets spells at least 256 times what any proper prefix of
/// it spells.
pub proof fn lemma_be_value_prefix(octets: Seq<u8>, n: int)
    requires
        0 <= n < octets.len(),
    ensures
        be_value(octets) >= be_value(octets.take(n)) * 256,
    decreases octets.len(),
{
    let front = octets.drop_last();
    if n == octets.len() - 1 {
        assert(front =~= octets.take(n));
    } else {
        lemma_be_value_prefix(front, n);
        assert(front.take(n) =~= octets.take(n));
    }
}

/// Reads a DER length field.
///
/// Succeeds exactly where the input starts with a length field in the shortest
/// form that declares a length that fits in `usize`; the reader then stands
/// behind the field. A length that does not fit is longer than the input.
pub fn read_length<'a>(input: &mut untrusted::Reader<'a>) -> (r: Result<usize, Unspecified>)
    ensures
        unread(*final(input)).is_suffix_of(unread(*old(input))),
        match r {
            Ok(len) => spec_length(unread(*old(input))) matches Some((declared, size)) && {
                &&& declared == len
                &&& unread(*final(input)) == unread(*old(input)).skip(size as int)
            },
            Err(_) => spec_length(unread(*old(input))) matches Some((declared, _)) ==> {
                &&& declared > usize::MAX
                &&& declared > unread(*old(input)).len()
            },
        },
{
    let ghost s = unread(*input);
    let first = match input.read_byte() {
        Ok(b) => b,
        Err(_) => {
            return Err(Unspecified);
        },
    };
    if first < 0x80 {
        return Ok(first as usize);
    }
    if first == 0x80 || first == 0xff {
        return Err(Unspecified);
    }
    let count: u8 = first - 0x80;
    let mut length: usize = 0;
    let mut i: u8 = 0;
    while i < count
        invariant
            s == unread(*old(input)),
            count == s[0] - 0x80,
            0 < count < 0x7f,
            i <= count,
            1 + i <= s.len() <= usize::MAX,
            unread(*input) == s.skip(1 + i),
            length == be_value(s.subrange(1, 1 + i)),
            i > 0 ==> s[1] != 0,
        decreases count - i,
    {
        let b = match input.read_byte() {
            Ok(b) => b,
            Err(_) => {
                return Err(Unspecified);
            },
        };
        if i == 0 && b == 0 {
            return Err(Unspecified);
        }
        if length > usize::MAX / 256 {
            proof {
                if s.len() >= 1 + count {
                    let octets = s.subrange(1, 1 + count);
                    lemma_be_value_prefix(octets, i as int);
                    assert(octets.take(i as int) =~= s.subrange(1, 1 + i));
                }
            }
            return Err(Unspecified);
        }
        proof {
            lemma_be_value_push(s.subrange(1, 1 + i), b);
            assert(s.subrange(1, 1 + i).push(b) =~= s.subrange(1, 1 + i + 1));
            assert(s.skip(1 + i).skip(1) =~= s.skip(1 + i + 1));
        }
        length = length * 256 + b as usize;
        i = i + 1;
    }
    if length < 0x80 {
        return Err(Unspecified);
    }
    Ok(length)
}

/// The header at the start of `s`, that is the octet of `tag` and a length
/// field: the length it declares and the number of octets the header takes.
pub open spec fn spec_header(s: Seq<u8>, tag: Tag) -> Option<(nat, nat)> {
    if s.len() > 0 && s[0] == tag.spec_byte() {
        match spec_length(s.skip(1)) {
            Some((declared, size)) => Some((declared, 1 + size)),
            None => None,
        }
    } else {
        None
    }
}

/// The value with tag `tag` at the start of `s`: its contents and what follows
/// it. `None` where `s` does not start with such a header, or declares more
/// bytes than `s` has left behind the header.
pub open spec fn spec_value(s: Seq<u8>, tag: Tag) -> Option<(Seq<u8>, Seq<u8>)> {
    match spec_header(s, tag) {
        Some((declared, size)) => if size + declared <= s.len() {
            Some((s.subrange(size as int, (size + declared) as int), s.skip((size + declared) as int)))
        } else {
            None
        },
        None => None,
    }
}

/// Reads the octet of `tag` and the length field behind it, and returns the
/// declared length.
///
/// Succeeds exactly where the input starts with such a header and the length
/// fits in `usize`; the reader then stands at the first byte of the contents.
pub fn read_tag_and_length<'a>(input: &mut untrusted::Reader<'a>, tag: Tag) -> (r: Result<usize, Unspecified>)
    ensures
        unread(*final(input)).is_suffix_of(unread(*old(input))),
        match r {
            Ok(len) => spec_header(unread(*old(input)), tag) matches Some((declared, size)) && {
                &&& declared == len
                &&& unread(*final(input)) == unread(*old(input)).skip(size as int)
            },
            Err(_) => spec_header(unread(*old(input)), tag) matches Some((declared, _)) ==> {
                &&& declared > usize::MAX
                &&& declared > unread(*old(input)).len()
            },
        },
{
    let ghost s = unread(*input);
    let actual = match input.read_byte() {
        Ok(b) => b,
        Err(_) => {
            return Err(Unspecified);
        },
    };
    if actual != tag.byte() {
        return Err(Unspecified);
    }
    let r = read_length(input);
    proof {
        lemma_suffix_of_skip(unread(*input), s, 1);
        if let Some((_, size)) = spec_length(s.skip(1)) {
            assert(s.skip(1).skip(size as int) =~= s.skip(1 + size as int));
        }
    }
    r
}

/// Reads the value with tag `tag` and returns its contents.
///
/// Succeeds exactly where the input starts with such a value, all of it; the
/// reader then stands behind the value.
pub fn expect_tag_and_get_value<'a>(input: &mut untrusted::Reader<'a>, tag: Tag) -> (r: Result<
    untrusted::Input<'a>,
    Unspecified,
>)
    ensures
        unread(*final(input)).is_suffix_of(unread(*old(input))),
        match r {
            Ok(value) => spec_value(unread(*old(input)), tag) == Some(
                (input_bytes(value), unread(*final(input))),
            ),
            Err(_) => spec_value(unread(*old(input)), tag) is None,
        },
{
    let ghost s = unread(*input);
    let len = match read_tag_and_length(input, tag) {
        Ok(len) => len,
        Err(_) => {
            return Err(Unspecified);
        },
    };
    let ghost t = unread(*input);
    match input.read_bytes(len) {
        Ok(value) => {
            proof {
                let size = spec_header(s, tag).unwrap().1;
                assert(t.take(len as int) =~= s.subrange(size as int, size + len));
                assert(t.skip(len as int) =~= s.skip(size + len));
            }
            Ok(value)
        },
        Err(_) => Err(Unspecified),
    }
}

/// Reads the value with tag `tag` and runs `decoder` over its contents.
///
/// Fails with `error` where the input does not start with such a value.
/// Otherwise the reader stands behind the value, a success is a success of
/// `decoder` that read all of the contents, and a failure is a failure of
/// `decoder`, or `error` after a success of `decoder` that left some of the
/// contents unread.
pub fn nested<'a, F, R, E>(input: &mut untrusted::Reader<'a>, tag: Tag, error: E, decoder: F) -> (r: Result<
    R,
    E,
>) where F: FnOnce(&mut untrusted::Reader<'a>) -> Result<R, E>
    requires
        forall|reader: &mut untrusted::Reader<'a>|
            (spec_value(unread(*old(input)), tag) matches Some((contents, _)) && unread(*reader) == contents)
                ==> call_requires(decoder, (reader,)),
    ensures
        unread(*final(input)).is_suffix_of(unread(*old(input))),
        match spec_value(unread(*old(input)), tag) {
            Some((contents, rest)) => {
                &&& unread(*final(input)) == rest
                &&& match r {
                    Ok(value) => exists|reader: &mut untrusted::Reader<'a>|
                        {
                            &&& #[trigger] unread(*reader) == contents
                            &&& call_ensures(decoder, (reader,), Ok(value))
                            &&& unread(*final(reader)).len() == 0
                        },
                    Err(e) => exists|reader: &mut untrusted::Reader<'a>|
                        {
                            &&& #[trigger] unread(*reader) == contents
                            &&& {
                                ||| call_ensures(decoder, (reader,), Err(e))
                                ||| e == error && unread(*final(reader)).len() > 0 && exists|value: R|
                                    #[trigger] call_ensures(decoder, (reader,), Ok(value))
                            }
                        },
                }
            },
            None => r == Err::<R, E>(error),
        },
{
    let contents = match expect_tag_and_get_value(input, tag) {
        Ok(value) => value,
        Err(_) => {
            return Err(error);
        },
    };
    contents.read_all(error, decoder)
}

/// Whether `bytes` spell a positive integer in the shortest form: there is a
/// first byte and it is not zero.
pub open spec fn is_positive_integer(bytes: Seq<u8>) -> bool {
    bytes.len() > 0 && bytes[0] != 0
}

/// The positive `INTEGER` at the start of `s`: its contents and what follows
/// it.
pub open spec fn spec_positive_integer(s: Seq<u8>) -> Option<(Seq<u8>, Seq<u8>)> {
    match spec_value(s, Tag::Integer) {
        Some((contents, rest)) => if is_positive_integer(contents) {
            Some((contents, rest))
        } else {
            None
        },
        None => None,
    }
}

/// Reads an `INTEGER` and returns its contents, which must spell a positive
/// integer in the shortest form. No number is built from them.
pub fn positive_integer<'a>(input: &mut untrusted::Reader<'a>) -> (r: Result<untrusted::Input<'a>, Unspecified>)
    ensures
        unread(*final(input)).is_suffix_of(unread(*old(input))),
        match r {
            Ok(value) => spec_positive_integer(unread(*old(input))) == Some(
                (input_bytes(value), unread(*final(input))),
            ),
            Err(_) => spec_positive_integer(unread(*old(input))) is None,
        },
{
    let value = expect_tag_and_get_value(input, Tag::Integer)?;
    if value.len() == 0 {
        return Err(Unspecified);
    }
    if untrusted::Reader::new(value).peek(0) {
        return Err(Unspecified);
    }
    Ok(value)
}

/// What is left of a suffix of `s.skip(n)` is a suffix of `s`.
pub proof fn lemma_suffix_of_skip(t: Seq<u8>, s: Seq<u8>, n: int)
    requires
        0 <= n <= s.len(),
        t.is_suffix_of(s.skip(n)),
    ensures
        t.is_suffix_of(s),
{
    let u = s.skip(n);
    assert(t =~= u.subrange(u.len() - t.len(), u.len() as int));
    assert(u.subrange(u.len() - t.len(), u.len() as int) =~= s.subrange(s.len() - t.len(), s.len() as int));
}

} // verus!

//! PKCS#1 v1.5 padding: the `DigestInfo` prefix of each hash algorithm.

use crate::der::Tag;
use crate::digest;
use crate::encoding::encode_value;
use vstd::prelude::*;

verus! {

const SHA1_PKCS1_DIGESTINFO_PREFIX: [u8; 15] = [
    0x30, 0x21, 0x30, 0x09, 0x06, 0x05, 0x2b, 0x0e, 0x03, 0x02, 0x1a, 0x05, 0x00, 0x04, 0x14,
];

const SHA256_PKCS1_DIGESTINFO_PREFIX: [u8; 19] = [
    0x30, 0x31, 0x30, 0x0d, 0x06, 0x09, 0x60, 0x86, 0x48, 0x01, 0x65, 0x03, 0x04, 0x02, 0x01, 0x05, 0x00, 0x04,
    0x20,
];

const SHA384_PKCS1_DIGESTINFO_PREFIX: [u8; 19] = [
    0x30, 0x41, 0x30, 0x0d, 0x06, 0x09, 0x60, 0x86, 0x48, 0x01, 0x65, 0x03, 0x04, 0x02, 0x02, 0x05, 0x00, 0x04,
    0x30,
];

const SHA512_PKCS1_DIGESTINFO_PREFIX: [u8; 19] = [
    0x30, 0x51, 0x30, 0x0d, 0x06, 0x09, 0x60, 0x86, 0x48, 0x01, 0x65, 0x03, 0x04, 0x02, 0x03, 0x05, 0x00, 0x04,
    0x40,
];

/// The object identifier of a hash algorithm, as the contents of a DER `OID`.
pub open spec fn digest_oid(alg: digest::Algorithm) -> Seq<u8> {
    match alg {
        digest::Algorithm::SHA1 => seq![0x2bu8, 0x0e, 0x03, 0x02, 0x1a],
        digest::Algorithm::SHA256 => seq![0x60u8, 0x86, 0x48, 0x01, 0x65, 0x03, 0x04, 0x02, 0x01],
        digest::Algorithm::SHA384 => seq![0x60u8, 0x86, 0x48, 0x01, 0x65, 0x03, 0x04, 0x02, 0x02],
        digest::Algorithm::SHA512 => seq![0x60u8, 0x86, 0x48, 0x01, 0x65, 0x03, 0x04, 0x02, 0x03],
    }
}

/// What precedes the digest in the DER encoding of a `DigestInfo`,
/// `SEQUENCE { SEQUENCE { OID, NULL }, OCTET STRING }`, for an algorithm with
/// the identifier `oid` and digests of `digest_len` bytes: each header with the
/// length of what it encloses, the identifier, and the header of the digest.
pub open spec fn digestinfo_prefix(oid: Seq<u8>, digest_len: nat) -> Seq<u8> {
    seq![
        Tag::Sequence.spec_byte(),
        (8 + oid.len() + digest_len) as u8,
        Tag::Sequence.spec_byte(),
        (2 + oid.len() + 2) as u8,
        Tag::OID.spec_byte(),
        oid.len() as u8,
    ] + oid + seq![Tag::Null.spec_byte(), 0u8, Tag::OctetString.spec_byte(), digest_len as u8]
}

/// The DER encoding of the `DigestInfo` of a digest: a `SEQUENCE` of the
/// algorithm, itself a `SEQUENCE` of its identifier and a `NULL`, and the
/// digest as an `OCTET STRING`.
pub open spec fn encode_digest_info(oid: Seq<u8>, digest: Seq<u8>) -> Seq<u8> {
    encode_value(
        Tag::Sequence,
        encode_value(Tag::Sequence, encode_value(Tag::OID, oid) + encode_value(Tag::Null, Seq::empty()))
            + encode_value(Tag::OctetString, digest),
    )
}

/// The prefix is ten octets and the identifier long and starts with the octet
/// of `SEQUENCE`, and the lengths that it declares are those of what follows:
/// a digest behind its prefix is the DER encoding of its `DigestInfo`. This
/// holds wherever the whole stays below 128 bytes, the reach of a length of
/// one octet.
pub proof fn lemma_digestinfo_prefix_encodes(oid: Seq<u8>, digest: Seq<u8>)
    requires
        8 + oid.len() + digest.len() < 0x80,
    ensures
        digestinfo_prefix(oid, digest.len()).len() == 2 + 8 + oid.len(),
        digestinfo_prefix(oid, digest.len())[0] == Tag::Sequence.spec_byte(),
        digestinfo_prefix(oid, digest.len()) + digest == encode_digest_info(oid, digest),
{
    let null = encode_value(Tag::Null, Seq::empty());
    let identifier = encode_value(Tag::OID, oid);
    let algorithm = encode_value(Tag::Sequence, identifier + null);
    assert(null =~= seq![Tag::Null.spec_byte(), 0u8]);
    assert(identifier.len() == 2 + oid.len());
    assert(algorithm.len() == 6 + oid.len());
    assert(digestinfo_prefix(oid, digest.len()) + digest =~= encode_digest_info(oid, digest));
}

/// The identifier and the digests of each hash algorithm are short enough
/// for [`lemma_digestinfo_prefix_encodes`]: behind the prefix of an algorithm,
/// a digest of that algorithm is the DER encoding of its `DigestInfo`.
pub proof fn lemma_pkcs1_digestinfo(alg: digest::Algorithm, digest: Seq<u8>)
    requires
        digest.len() == alg.output_len(),
    ensures
        digestinfo_prefix(digest_oid(alg), alg.output_len() as nat).len() == 2 + 8 + digest_oid(alg).len(),
        digestinfo_prefix(digest_oid(alg), alg.output_len() as nat)[0] == Tag::Sequence.spec_byte(),
        digestinfo_prefix(digest_oid(alg), alg.output_len() as nat) + digest == encode_digest_info(
            digest_oid(alg),
            digest,
        ),
{
    lemma_digestinfo_prefix_encodes(digest_oid(alg), digest);
}

/// The `DigestInfo` prefix of a hash algorithm.
pub fn pkcs1_digestinfo_prefix(alg: digest::Algorithm) -> (prefix: &'static [u8])
    ensures
        prefix@ == digestinfo_prefix(digest_oid(alg), alg.output_len() as nat),
{
    let prefix: &'static [u8] = match alg {
        digest::Algorithm::SHA1 => SHA1_PKCS1_DIGESTINFO_PREFIX.as_slice(),
        digest::Algorithm::SHA256 => SHA256_PKCS1_DIGESTINFO_PREFIX.as_slice(),
        digest::Algorithm::SHA384 => SHA384_PKCS1_DIGESTINFO_PREFIX.as_slice(),
        digest::Algorithm::SHA512 => SHA512_PKCS1_DIGESTINFO_PREFIX.as_slice(),
    };
    assert(prefix@ =~= digestinfo_prefix(digest_oid(alg), alg.output_len() as nat));
    prefix
}

/// A PKCS#1 v1.5 padding: a hash algorithm and the `DigestInfo` prefix that goes
/// with it.
pub struct RSAPadding {
    digest_alg: digest::Algorithm,
    digestinfo_prefix: &'static [u8],
}

impl RSAPadding {
    #[verifier::type_invariant]
    closed spec fn prefix_fits(self) -> bool {
        self.digestinfo_prefix@ == digestinfo_prefix(
            digest_oid(self.digest_alg),
            self.digest_alg.output_len() as nat,
        )
    }

    /// The hash algorithm of the padding.
    pub closed spec fn spec_digest_alg(&self) -> digest::Algorithm {
        self.digest_alg
    }

    /// The `DigestInfo` prefix of the padding.
    pub closed spec fn spec_digestinfo_prefix(&self) -> Seq<u8> {
        self.digestinfo_prefix@
    }

    /// The padding for RSA with PKCS#1 v1.5 and the hash algorithm `alg`: it
    /// holds `alg` and the `DigestInfo` prefix of `alg`.
    pub fn pkcs1(alg: digest::Algorithm) -> (padding: RSAPadding)
        ensures
            padding.spec_digest_alg() == alg,
            padding.spec_digestinfo_prefix() == digestinfo_prefix(digest_oid(alg), alg.output_len() as nat),
    {
        RSAPadding { digest_alg: alg, digestinfo_prefix: pkcs1_digestinfo_prefix(alg) }
    }

    /// The hash algorithm of the padding.
    #[verifier::when_used_as_spec(spec_digest_alg)]
    pub fn digest_alg(&self) -> (alg: digest::Algorithm)
        ensures
            alg == self.spec_digest_alg(),
    {
        self.digest_alg
    }

    /// The `DigestInfo` prefix of the padding, which is that of its hash
    /// algorithm.
    pub fn digestinfo_prefix(&self) -> (prefix: &'static [u8])
        ensures
            prefix@ == self.spec_digestinfo_prefix(),
            prefix@ == digestinfo_prefix(digest_oid(self.digest_alg()), self.digest_alg().output_len() as nat),
    {
        proof {
            use_type_invariant(self);
        }
        self.digestinfo_prefix
    }
}

/// Parameters for RSA signing and verification: a padding, and the least
/// number of bits that a modulus may have.
pub struct RSAParameters {
    padding_alg: &'static RSAPadding,
    min_bits: usize,
}

impl RSAParameters {
    /// The padding of the parameters.
    pub closed spec fn spec_padding_alg(&self) -> &'static RSAPadding {
        self.padding_alg
    }

    /// The least number of bits of a modulus.
    pub closed spec fn spec_min_bits(&self) -> usize {
        self.min_bits
    }

    /// Parameters with the given padding and least number of bits.
    pub fn new(padding_alg: &'static RSAPadding, min_bits: usize) -> (parameters: RSAParameters)
        ensures
            parameters.spec_padding_alg() == padding_alg,
            parameters.spec_min_bits() == min_bits,
    {
        RSAParameters { padding_alg, min_bits }
    }

    /// The padding of the parameters.
    #[verifier::when_used_as_spec(spec_padding_alg)]
    pub fn padding_alg(&self) -> (padding_alg: &'static RSAPadding)
        ensures
            padding_alg == self.spec_padding_alg(),
    {
        self.padding_alg
    }

    /// The least number of bits of a modulus.
    #[verifier::when_used_as_spec(spec_min_bits)]
    pub fn min_bits(&self) -> (min_bits: usize)
        ensures
            min_bits == self.spec_min_bits(),
    {
        self.min_bits
    }
}

} // verus!

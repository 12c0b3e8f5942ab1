//! The front end of RSA PKCS#1 v1.5 signatures: the fixed `DigestInfo`
//! prefixes, strict DER parsing of public keys and of their integers, and the
//! owner of a number held by a native arithmetic engine.
//!
//! Every executable function carries a contract that Verus proves. The
//! contracts speak of byte sequences: what an [`untrusted::Input`] holds and
//! what an [`untrusted::Reader`] has not read yet.

pub mod der;
pub mod digest;
pub mod encoding;
pub mod error;
pub mod input;
pub mod rsa;

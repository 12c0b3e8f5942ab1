//! RSA PKCS#1 v1.5 signatures: paddings, public keys and the integers that
//! keys are made of.

pub mod padding;
pub mod positive_integer;
pub mod public_key;

pub use padding::{RSAPadding, RSAParameters};
pub use positive_integer::PositiveInteger;
pub use public_key::parse_public_key;

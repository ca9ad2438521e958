//! Names for the digests the engine needs, and the trusted calls computing
//! them. The digests themselves are functions of their input bytes alone;
//! nothing here states what they evaluate to.

use vstd::prelude::*;

use bitcoin::hashes::Hash as HashTrait;

verus! {

/// The 32-byte double-SHA256 digest of a byte string.
pub uninterp spec fn sha256d_of(data: Seq<u8>) -> Seq<u8>;

/// The 32-byte SHA256 digest of a byte string.
pub uninterp spec fn sha256_of(data: Seq<u8>) -> Seq<u8>;

/// The 20-byte HASH160 (RIPEMD160 of SHA256) digest of a byte string.
pub uninterp spec fn hash160_of(data: Seq<u8>) -> Seq<u8>;

/// Whether a byte string is a well-formed DER-encoded ECDSA signature.
pub uninterp spec fn der_decodes(data: Seq<u8>) -> bool;

/// Relies on bitcoin::hashes::sha256d::Hash::hash: the 32-byte double-SHA256
/// digest of the input, a function of the input bytes alone.
#[verifier::external_body]
pub fn sha256d(data: &Vec<u8>) -> (r: Vec<u8>)
    ensures
        r@ == sha256d_of(data@),
        r@.len() == 32,
{
    let h: bitcoin::hashes::sha256d::Hash = HashTrait::hash(data.as_slice());
    HashTrait::to_byte_array(h).to_vec()
}

/// Relies on bitcoin::hashes::sha256::Hash::hash: the 32-byte SHA256 digest
/// of the input, a function of the input bytes alone.
#[verifier::external_body]
pub fn sha256(data: &Vec<u8>) -> (r: Vec<u8>)
    ensures
        r@ == sha256_of(data@),
        r@.len() == 32,
{
    let h: bitcoin::hashes::sha256::Hash = HashTrait::hash(data.as_slice());
    HashTrait::to_byte_array(h).to_vec()
}

/// Relies on bitcoin::hashes::hash160::Hash::hash: the 20-byte
/// RIPEMD160-of-SHA256 digest of the input, a function of the input bytes
/// alone.
#[verifier::external_body]
pub fn hash160(data: &Vec<u8>) -> (r: Vec<u8>)
    ensures
        r@ == hash160_of(data@),
        r@.len() == 20,
{
    let h: bitcoin::hashes::hash160::Hash = HashTrait::hash(data.as_slice());
    HashTrait::to_byte_array(h).to_vec()
}

/// Relies on secp256k1::ecdsa::Signature::from_der: whether the bytes are a
/// well-formed DER signature, a function of the bytes alone.
#[verifier::external_body]
pub fn der_signature_decodes(data: &Vec<u8>) -> (r: bool)
    ensures
        r == der_decodes(data@),
{
    secp256k1::ecdsa::Signature::from_der(data.as_slice()).is_ok()
}

} // verus!

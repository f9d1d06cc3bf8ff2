use vstd::prelude::*;
use crate::error::Error;
use elements_miniscript::bitcoin::hashes::sha256;
use elements_miniscript::bitcoin::secp256k1::XOnlyPublicKey;
use elements_miniscript::elements::secp256k1_zkp as secp;
use std::str::FromStr;

verus! {

/// The SHA-256 digest of a byte string.
pub uninterp spec fn sha256_of(data: Seq<u8>) -> Seq<u8>;

/// The compressed (33-byte) public key of a secret key, where the bytes are a
/// valid secret key.
pub uninterp spec fn compressed_key_of(secret: Seq<u8>) -> Option<Seq<u8>>;

/// The negation of a secret key, where the bytes are a valid secret key.
pub uninterp spec fn negated_secret_of(secret: Seq<u8>) -> Option<Seq<u8>>;

/// The locking script of a taproot descriptor, where the text parses as one.
pub uninterp spec fn taproot_script_of(text: Seq<char>) -> Option<Seq<u8>>;

/// The Elements regtest address that pays to a descriptor, where the text parses
/// as a descriptor that has an address.
pub uninterp spec fn taproot_address_of(text: Seq<char>) -> Option<Seq<char>>;

/// Relies on `sha256::Hash::hash` of bitcoin_hashes: the 32-byte SHA-256 digest.
#[verifier::external_body]
pub(crate) fn sha256(data: &Vec<u8>) -> (r: Vec<u8>)
    ensures
        r@ == sha256_of(data@),
        r@.len() == 32,
{
    let digest = <sha256::Hash as elements_miniscript::bitcoin::hashes::Hash>::hash(data.as_slice());
    <sha256::Hash as elements_miniscript::bitcoin::hashes::Hash>::to_byte_array(digest).to_vec()
}

/// Relies on `PublicKey::from_secret_key` of secp256k1 (after `SecretKey::from_slice`,
/// which refuses bytes that are no secret key) and on `PublicKey::serialize`, which
/// gives the 33-byte compressed form.
#[verifier::external_body]
pub(crate) fn compressed_public_key(secret: &Vec<u8>) -> (r: Option<Vec<u8>>)
    ensures
        r matches Some(k) ==> compressed_key_of(secret@) == Some(k@) && k@.len() == 33,
        r is None ==> compressed_key_of(secret@) is None,
{
    match secp::SecretKey::from_slice(secret.as_slice()) {
        Ok(sk) => Some(secp::PublicKey::from_secret_key(&secp::Secp256k1::signing_only(), &sk).serialize().to_vec()),
        Err(_) => None,
    }
}

/// Relies on `SecretKey::negate` of secp256k1 (after `SecretKey::from_slice`, which
/// refuses bytes that are no secret key): the 32-byte negated secret.
#[verifier::external_body]
pub(crate) fn negate_secret(secret: &Vec<u8>) -> (r: Option<Vec<u8>>)
    ensures
        r matches Some(n) ==> negated_secret_of(secret@) == Some(n@) && n@.len() == 32,
        r is None ==> negated_secret_of(secret@) is None,
{
    match secp::SecretKey::from_slice(secret.as_slice()) {
        Ok(sk) => Some(sk.negate().secret_bytes().to_vec()),
        Err(_) => None,
    }
}

/// Relies on elements_miniscript's `Descriptor::from_str` over x-only keys and on
/// `Descriptor::script_pubkey`: the locking script of a taproot (`eltr`) descriptor.
/// Text that does not parse gives `Policy`, another kind of descriptor `OnlyTaproot`.
#[verifier::external_body]
pub(crate) fn taproot_script(text: &str) -> (r: Result<Vec<u8>, Error>)
    ensures
        r matches Ok(s) ==> taproot_script_of(text@) == Some(s@),
        r matches Err(e) ==> taproot_script_of(text@) is None && (e == Error::Policy || e == Error::OnlyTaproot),
{
    match elements_miniscript::Descriptor::<XOnlyPublicKey>::from_str(text) {
        Ok(d @ elements_miniscript::Descriptor::Tr(_)) => Ok(d.script_pubkey().into_bytes()),
        Ok(_) => Err(Error::OnlyTaproot),
        Err(_) => Err(Error::Policy),
    }
}

/// Relies on elements_miniscript's `Descriptor::from_str` over x-only keys and on
/// `Descriptor::address` for Elements regtest parameters.
#[verifier::external_body]
pub(crate) fn taproot_address(text: &str) -> (r: Option<String>)
    ensures
        r matches Some(a) ==> taproot_address_of(text@) == Some(a@),
        r is None ==> taproot_address_of(text@) is None,
{
    match elements_miniscript::Descriptor::<XOnlyPublicKey>::from_str(text) {
        Ok(d) => d.address(&elements_miniscript::elements::AddressParams::ELEMENTS).ok().map(|a| a.to_string()),
        Err(_) => None,
    }
}

} // verus!

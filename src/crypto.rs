//! Signature helpers: key pairs and signatures as base64 text, and the
//! choice of scheme by encoding name or key form.

use vstd::prelude::*;
use vstd::string::*;
use vstd::utf8::encode_utf8;
use crate::storage::opt_bytes;

verus! {

pub open spec fn base64_alphabet() -> Seq<char> {
    "ABCDEFGHIJKLMNOPQRSTUVWXYZabcdefghijklmnopqrstuvwxyz0123456789+/"@
}

/// The base64 digit of a six-bit value.
pub open spec fn digit64(d: int) -> char {
    base64_alphabet()[d]
}

/// The standard, padded base64 text of some bytes: four digits for each
/// three bytes, the last group padded with `=`.
pub open spec fn base64_of(b: Seq<u8>) -> Seq<char>
    decreases b.len(),
{
    let x = if b.len() > 0 { b[0] as int } else { 0 };
    let y = if b.len() > 1 { b[1] as int } else { 0 };
    let z = if b.len() > 2 { b[2] as int } else { 0 };
    if b.len() == 0 {
        Seq::empty()
    } else if b.len() == 1 {
        seq![digit64(x / 4), digit64((x % 4) * 16), '=', '=']
    } else if b.len() == 2 {
        seq![digit64(x / 4), digit64((x % 4) * 16 + y / 16), digit64((y % 16) * 4), '=']
    } else {
        seq![digit64(x / 4), digit64((x % 4) * 16 + y / 16), digit64((y % 16) * 4 + z / 64), digit64(z % 64)]
            + base64_of(b.skip(3))
    }
}

/// The bytes that standard, padded base64 text stands for; `None` for text
/// that is no such encoding.
pub uninterp spec fn base64_bytes(s: Seq<char>) -> Option<Seq<u8>>;

/// Whether Ed25519 accepts signature `sig` of `msg` under public key `pk`.
pub uninterp spec fn ed25519_accepts(pk: Seq<u8>, msg: Seq<u8>, sig: Seq<u8>) -> bool;

/// Relies on base64::encode (standard alphabet, padded), which panics only
/// when the size of the encoding overflows `usize`.
#[verifier::external_body]
fn base64_encode(b: &[u8]) -> (r: String)
    requires
        b@.len() <= usize::MAX / 2,
    ensures
        r@ == base64_of(b@),
{
    base64::encode(b)
}

/// Relies on base64::decode (standard alphabet, padded): the bytes, or an
/// error for text that is no such encoding.
#[verifier::external_body]
fn base64_decode(s: &str) -> (r: Option<Vec<u8>>)
    ensures
        opt_bytes(r) == base64_bytes(s@),
{
    base64::decode(s).ok()
}

/// Relies on ed25519_compact's `PublicKey::verify`, after
/// `PublicKey::from_slice` and `Signature::from_slice` (which refuse any
/// length but 32 and 64 bytes).
#[verifier::external_body]
fn ed25519_verify(pk: &[u8], msg: &[u8], sig: &[u8]) -> (r: bool)
    ensures
        r == ed25519_accepts(pk@, msg@, sig@),
        r ==> pk@.len() == 32 && sig@.len() == 64,
{
    match (ed25519_compact::PublicKey::from_slice(pk), ed25519_compact::Signature::from_slice(sig)) {
        (Ok(p), Ok(s)) => p.verify(msg, &s).is_ok(),
        _ => false,
    }
}

/// Relies on ed25519_compact's `SecretKey::sign` with random noise: a
/// 64-byte signature, which the noise makes differ from call to call.
#[verifier::external_body]
fn ed25519_sign(sk: &[u8; 64], msg: &[u8]) -> (r: [u8; 64]) {
    let key = ed25519_compact::SecretKey::new(*sk);
    *key.sign(msg, Some(ed25519_compact::Noise::default()))
}

/// Relies on ed25519_compact's `KeyPair::generate`: a random key pair, as
/// its 32-byte public key and its 64-byte secret key, which is the seed
/// followed by the public key.
#[verifier::external_body]
fn ed25519_generate() -> (r: ([u8; 32], [u8; 64]))
    ensures
        r.1@.subrange(32, 64) == r.0@,
{
    let kp = ed25519_compact::KeyPair::generate();
    (*kp.pk, *kp.sk)
}

/// An Ed25519 key pair as base64 text.
#[derive(Debug, Clone, PartialEq, Eq)]
pub struct Ed25519KeyPair {
    pub pk: String,
    pub sk: String,
}

/// A fresh random Ed25519 key pair.
pub fn generate_keypair() -> (r: Ed25519KeyPair)
    ensures
        exists|pk: Seq<u8>, sk: Seq<u8>|
            pk.len() == 32 && sk.len() == 64 && sk.subrange(32, 64) == pk && r.pk@ == base64_of(pk)
                && r.sk@ == base64_of(sk),
{
    let (pk, sk) = ed25519_generate();
    let r = Ed25519KeyPair { pk: base64_encode(pk.as_slice()), sk: base64_encode(sk.as_slice()) };
    assert(pk@.len() == 32 && sk@.len() == 64);
    r
}

/// Signs `message` with the secret key given as base64 text: the base64
/// text of a 64-byte signature; `None` when the key is not the base64 text
/// of 64 bytes.
pub fn sign(message: String, private_key: String) -> (r: Option<String>)
    ensures
        r is Some <==> (base64_bytes(private_key@) matches Some(k) && k.len() == 64),
        r matches Some(s) ==> exists|sig: Seq<u8>| sig.len() == 64 && s@ == base64_of(sig),
{
    let key = match base64_decode(private_key.as_str()) {
        Some(k) => k,
        None => return None,
    };
    if key.len() != 64 {
        return None;
    }
    let mut sk = [0u8; 64];
    let mut i: usize = 0;
    while i < 64
        invariant
            key@.len() == 64,
            i <= 64,
            sk@.len() == 64,
        decreases 64 - i,
    {
        sk[i] = key[i];
        i = i + 1;
    }
    let sig = ed25519_sign(&sk, message.as_str().as_bytes());
    let s = base64_encode(sig.as_slice());
    assert(sig@.len() == 64);
    Some(s)
}

/// The two signature schemes.
#[derive(Clone, Copy, Debug, PartialEq, Eq, Structural)]
pub enum SignatureScheme {
    Secp256k1,
    Ed25519,
}

/// The scheme that an encoding name selects: secp256k1 for an empty name or
/// "secp256k1", Ed25519 for any other.
pub open spec fn scheme_of(enc: Seq<char>) -> SignatureScheme {
    if enc.len() == 0 || enc == "secp256k1"@ {
        SignatureScheme::Secp256k1
    } else {
        SignatureScheme::Ed25519
    }
}

pub fn signature_scheme(enc: &str) -> (r: SignatureScheme)
    ensures
        r == scheme_of(enc@),
{
    if enc.is_empty() || enc.to_owned() == "secp256k1".to_owned() {
        SignatureScheme::Secp256k1
    } else {
        SignatureScheme::Ed25519
    }
}

/// Whether `signature` (base64) is a valid signature of `message` under
/// `public_key` (base64), in the scheme that `enc` names; `None` for the
/// secp256k1 scheme, whose signatures this library does not check.
pub fn verify(public_key: String, signature: String, message: String, enc: String) -> (r: Option<bool>)
    ensures
        scheme_of(enc@) == SignatureScheme::Secp256k1 ==> r is None,
        scheme_of(enc@) == SignatureScheme::Ed25519 ==> r == Some(
            base64_bytes(public_key@) is Some && base64_bytes(signature@) is Some && ed25519_accepts(
                base64_bytes(public_key@)->Some_0,
                encode_utf8(message@),
                base64_bytes(signature@)->Some_0,
            ),
        ),
{
    match signature_scheme(enc.as_str()) {
        SignatureScheme::Secp256k1 => None,
        SignatureScheme::Ed25519 => {
            let pk = match base64_decode(public_key.as_str()) {
                Some(pk) => pk,
                None => return Some(false),
            };
            let sig = match base64_decode(signature.as_str()) {
                Some(sig) => sig,
                None => return Some(false),
            };
            Some(ed25519_verify(pk.as_slice(), message.as_str().as_bytes(), sig.as_slice()))
        },
    }
}

/// The scheme that a public key's form selects: keys written with a "0x"
/// prefix are secp256k1 keys, all others Ed25519 keys.
pub fn get_public_key_type(public_key: &str) -> (r: String)
    ensures
        r@ == if public_key.spec_bytes().len() >= 2 && public_key.spec_bytes()[0] == 0x30
            && public_key.spec_bytes()[1] == 0x78 {
            "secp256k1"@
        } else {
            "ed25519"@
        },
{
    let b = public_key.as_bytes();
    if b.len() >= 2 && b[0] == 0x30 && b[1] == 0x78 {
        "secp256k1".to_owned()
    } else {
        "ed25519".to_owned()
    }
}

} // verus!

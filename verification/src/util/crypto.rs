//! Passwords stored encrypted: AES-256-GCM under a 32-byte key, a fresh
//! 12-byte nonce in front, all written as Base64.
use vstd::prelude::*;
use aes_gcm::aead::{Aead, AeadCore, KeyInit, OsRng};
use aes_gcm::{Aes256Gcm, Key, Nonce};
use vstd::string::StringSliceAdditionalSpecFns;
use vstd::utf8::{decode_utf8, encode_utf8, valid_utf8};
use crate::util::base64::{b64_decode, b64_encode, base64_decode, base64_encode, lemma_base64_roundtrip};

verus! {

/// The length of an AES-256 key in bytes.
pub const KEY_LEN: usize = 32;

/// The length of an AES-GCM nonce in bytes.
pub const NONCE_LEN: usize = 12;

/// The longest plaintext, in bytes, that AES-GCM encrypts.
pub const PLAIN_MAX: u64 = 68719476736;

/// What `Aead::encrypt` of `Aes256Gcm` gives for a key, a nonce and a
/// plaintext: the ciphertext followed by the tag.
pub uninterp spec fn gcm_sealed(key: Seq<u8>, nonce: Seq<u8>, plain: Seq<u8>) -> Seq<u8>;

/// What `Aead::decrypt` of `Aes256Gcm` gives for a key, a nonce and sealed
/// bytes: the plaintext, or `None` when the tag does not match.
pub uninterp spec fn gcm_opened(key: Seq<u8>, nonce: Seq<u8>, sealed: Seq<u8>) -> Option<Seq<u8>>;

/// `Aes256Gcm::new(key).encrypt(nonce, plain)`. The aes-gcm source fails
/// only for a plaintext over 2^36 bytes; AEAD decryption with the same key
/// and nonce gives the plaintext back.
#[verifier::external_body]
fn gcm_encrypt(key: &[u8], nonce: &[u8], plain: &[u8]) -> (r: Option<Vec<u8>>)
    requires
        key@.len() == KEY_LEN,
        nonce@.len() == NONCE_LEN,
    ensures
        plain@.len() <= PLAIN_MAX ==> r is Some,
        r matches Some(c) ==> c@ == gcm_sealed(key@, nonce@, plain@) && gcm_opened(key@, nonce@, c@) == Some(plain@),
{
    let cipher = Aes256Gcm::new(Key::<Aes256Gcm>::from_slice(key));
    cipher.encrypt(Nonce::from_slice(nonce), plain).ok()
}

/// `Aes256Gcm::new(key).decrypt(nonce, sealed)`, with its error as `None`.
#[verifier::external_body]
fn gcm_decrypt(key: &[u8], nonce: &[u8], sealed: &[u8]) -> (r: Option<Vec<u8>>)
    requires
        key@.len() == KEY_LEN,
        nonce@.len() == NONCE_LEN,
    ensures
        match r {
            Some(p) => gcm_opened(key@, nonce@, sealed@) == Some(p@),
            None => gcm_opened(key@, nonce@, sealed@) is None,
        },
{
    let cipher = Aes256Gcm::new(Key::<Aes256Gcm>::from_slice(key));
    cipher.decrypt(Nonce::from_slice(nonce), sealed).ok()
}

/// `Aes256Gcm::generate_nonce(&mut OsRng)`: 12 random bytes; nothing else
/// is promised of them.
#[verifier::external_body]
fn random_nonce() -> (r: Vec<u8>)
    ensures
        r@.len() == NONCE_LEN,
{
    Aes256Gcm::generate_nonce(&mut OsRng).to_vec()
}

/// `Aes256Gcm::generate_key(OsRng)` (which fills the key from the
/// operating system's random source): 32 random bytes; nothing else is
/// promised of them.
#[verifier::external_body]
fn random_key() -> (r: Vec<u8>)
    ensures
        r@.len() == KEY_LEN,
{
    Aes256Gcm::generate_key(OsRng).to_vec()
}

/// `b` cut or padded with zero bytes to the length of a key.
pub open spec fn padded_key(b: Seq<u8>) -> Seq<u8> {
    Seq::new(KEY_LEN as nat, |i: int| if i < b.len() { b[i] } else { 0u8 })
}

/// The key that a configured text stands for: its UTF-8 bytes, cut or
/// padded with zero bytes to the length of a key.
pub fn key_from_text(text: &str) -> (r: Vec<u8>)
    ensures
        r@ == padded_key(text.spec_bytes()),
{
    let b = text.as_bytes();
    let mut r: Vec<u8> = Vec::new();
    let mut i: usize = 0;
    while i < KEY_LEN
        invariant
            i <= KEY_LEN,
            b@ == text.spec_bytes(),
            r@.len() == i,
            forall|k: int| 0 <= k < i ==> #[trigger] r@[k] == padded_key(b@)[k],
        decreases KEY_LEN - i,
    {
        if i < b.len() {
            r.push(b[i]);
        } else {
            r.push(0u8);
        }
        i = i + 1;
    }
    assert(r@ =~= padded_key(b@));
    r
}

/// The process key: the configured text's key where a text is configured,
/// else a fresh random key.
pub fn process_key(configured: Option<&str>) -> (r: Vec<u8>)
    ensures
        r@.len() == KEY_LEN,
        configured matches Some(t) ==> r@ == padded_key(t.spec_bytes()),
{
    match configured {
        Some(t) => key_from_text(t),
        None => random_key(),
    }
}

/// `String::from_utf8`, which succeeds exactly on valid UTF-8 and keeps its
/// characters.
#[verifier::external_body]
fn utf8_string(bytes: Vec<u8>) -> (r: Option<String>)
    ensures
        r is Some <==> valid_utf8(bytes@),
        r matches Some(s) ==> s@ == decode_utf8(bytes@),
{
    String::from_utf8(bytes).ok()
}

/// What decryption gives for stored text `s` under `key`: Base64 text of a
/// nonce followed by sealed bytes whose plaintext is UTF-8; `None` where any
/// step fails.
pub open spec fn decrypted(key: Seq<u8>, s: Seq<char>) -> Option<Seq<char>> {
    match b64_decode(s) {
        None => None,
        Some(c) => if c.len() < 12 {
            None
        } else {
            match gcm_opened(key, c.take(12), c.skip(12)) {
                None => None,
                Some(p) => if valid_utf8(p) {
                    Some(decode_utf8(p))
                } else {
                    None
                },
            }
        },
    }
}

/// Encrypts `plain` under `key` with a fresh random nonce; decrypting the
/// result under the same key gives `plain` back.
pub fn encrypt_with_key(key: &[u8], plain: &str) -> (r: String)
    requires
        key@.len() == KEY_LEN,
        encode_utf8(plain@).len() <= PLAIN_MAX,
    ensures
        exists|nonce: Seq<u8>|
            nonce.len() == NONCE_LEN && #[trigger] b64_encode(nonce + gcm_sealed(key@, nonce, encode_utf8(plain@))) == r@,
        decrypted(key@, r@) == Some(plain@),
{
    let nonce = random_nonce();
    let bytes = plain.as_bytes();
    let sealed = gcm_encrypt(key, nonce.as_slice(), bytes);
    let sealed = match sealed {
        Some(c) => c,
        None => {
            proof { assert(false); }
            Vec::new()
        },
    };
    let mut combined: Vec<u8> = Vec::new();
    let mut i: usize = 0;
    while i < nonce.len()
        invariant
            i <= nonce@.len(),
            combined@ == nonce@.take(i as int),
        decreases nonce@.len() - i,
    {
        combined.push(nonce[i]);
        assert(nonce@.take(i as int + 1) =~= nonce@.take(i as int).push(nonce@[i as int]));
        i = i + 1;
    }
    let mut j: usize = 0;
    while j < sealed.len()
        invariant
            j <= sealed@.len(),
            combined@ == nonce@ + sealed@.take(j as int),
        decreases sealed@.len() - j,
    {
        combined.push(sealed[j]);
        assert(sealed@.take(j as int + 1) =~= sealed@.take(j as int).push(sealed@[j as int]));
        j = j + 1;
    }
    assert(nonce@.take(nonce@.len() as int) =~= nonce@);
    assert(sealed@.take(sealed@.len() as int) =~= sealed@);
    let r = base64_encode(combined.as_slice());
    proof {
        let c = nonce@ + sealed@;
        lemma_base64_roundtrip(c);
        assert(c.take(12) =~= nonce@);
        assert(c.skip(12) =~= sealed@);
        vstd::utf8::encode_utf8_valid_utf8(plain@);
        vstd::utf8::encode_utf8_decode_utf8(plain@);
        assert(b64_encode(nonce@ + gcm_sealed(key@, nonce@, encode_utf8(plain@))) == r@);
    }
    r
}

/// Decrypts text that [`encrypt_with_key`] wrote under `key`; `None` for
/// text that is not Base64, too short, not sealed under this key, or not
/// UTF-8 once opened.
pub fn decrypt_with_key(key: &[u8], encrypted: &str) -> (r: Option<String>)
    requires
        key@.len() == KEY_LEN,
    ensures
        match decrypted(key@, encrypted@) {
            None => r is None,
            Some(t) => r matches Some(x) && x@ == t,
        },
{
    let combined = match base64_decode(encrypted) {
        Some(c) => c,
        None => {
            return None;
        },
    };
    if combined.len() < NONCE_LEN {
        return None;
    }
    let mut nonce: Vec<u8> = Vec::new();
    let mut i: usize = 0;
    while i < NONCE_LEN
        invariant
            i <= NONCE_LEN,
            NONCE_LEN <= combined@.len(),
            nonce@ == combined@.take(i as int),
        decreases NONCE_LEN - i,
    {
        nonce.push(combined[i]);
        assert(combined@.take(i as int + 1) =~= combined@.take(i as int).push(combined@[i as int]));
        i = i + 1;
    }
    let mut sealed: Vec<u8> = Vec::new();
    let mut j: usize = NONCE_LEN;
    while j < combined.len()
        invariant
            NONCE_LEN <= j <= combined@.len(),
            sealed@ == combined@.subrange(NONCE_LEN as int, j as int),
        decreases combined@.len() - j,
    {
        sealed.push(combined[j]);
        assert(combined@.subrange(NONCE_LEN as int, j as int + 1) =~= combined@.subrange(NONCE_LEN as int, j as int).push(combined@[j as int]));
        j = j + 1;
    }
    assert(combined@.skip(12) =~= combined@.subrange(12, combined@.len() as int));
    match gcm_decrypt(key, nonce.as_slice(), sealed.as_slice()) {
        Some(p) => utf8_string(p),
        None => None,
    }
}

} // verus!

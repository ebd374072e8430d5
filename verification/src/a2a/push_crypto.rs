//! Encryption at rest of the webhook token a caller registers.
//!
//! ChaCha20-Poly1305 through `ring`, under one raw 32-byte key. A stored token is
//! `nonce(12) || ciphertext || tag(16)`, with a fresh random nonce per encryption.

use vstd::prelude::*;
use vstd::utf8::{decode_utf8, encode_utf8, valid_utf8};

use crate::text;

verus! {

/// Bytes of a key.
pub const KEY_LEN: usize = 32;

/// Bytes of a nonce.
pub const NONCE_LEN: usize = 12;

/// Bytes of an authentication tag.
pub const TAG_LEN: usize = 16;

/// The longest plaintext the cipher seals under one nonce.
pub const MAX_PLAINTEXT_LEN: u64 = 274_877_906_880;

/// What ChaCha20-Poly1305 makes of a plaintext under a key and a nonce: ciphertext and tag.
pub uninterp spec fn sealed(key: Seq<u8>, nonce: Seq<u8>, plaintext: Seq<u8>) -> Seq<u8>;

/// What ChaCha20-Poly1305 opens under a key and a nonce, or `None` where the tag does not verify.
pub uninterp spec fn opened(key: Seq<u8>, nonce: Seq<u8>, ciphertext: Seq<u8>) -> Option<Seq<u8>>;

/// What standard base64 with canonical padding decodes to, or `None` for an invalid text.
pub uninterp spec fn base64_decoded(encoded: Seq<char>) -> Option<Seq<u8>>;

/// `ring::aead::UnboundKey::new` for ChaCha20-Poly1305: it accepts 32 bytes and nothing else.
#[verifier::external_body]
fn key_accepted(bytes: &[u8]) -> (r: bool)
    ensures
        r == (bytes@.len() == KEY_LEN),
{
    ring::aead::UnboundKey::new(&ring::aead::CHACHA20_POLY1305, bytes).is_ok()
}

/// `ring::aead::LessSafeKey::seal_in_place_append_tag` with no associated data: the plaintext turned
/// into as many bytes of ciphertext and a 16-byte tag, which opens again under the same key and nonce.
/// It fails on a longer plaintext than the cipher's limit, or on a key of another length.
#[verifier::external_body]
fn seal(key: &[u8], nonce: [u8; 12], plaintext: &[u8]) -> (r: Vec<u8>)
    requires
        key@.len() == KEY_LEN,
        plaintext@.len() <= MAX_PLAINTEXT_LEN,
    ensures
        r@ == sealed(key@, nonce@, plaintext@),
        r@.len() == plaintext@.len() + TAG_LEN,
        opened(key@, nonce@, r@) == Some(plaintext@),
{
    let key = ring::aead::UnboundKey::new(&ring::aead::CHACHA20_POLY1305, key).unwrap();
    let nonce = ring::aead::Nonce::assume_unique_for_key(nonce);
    let mut in_out = plaintext.to_vec();
    ring::aead::LessSafeKey::new(key)
        .seal_in_place_append_tag(nonce, ring::aead::Aad::empty(), &mut in_out)
        .unwrap();
    in_out
}

/// `ring::aead::LessSafeKey::open_in_place` with no associated data: the plaintext, a tag shorter than
/// what was given, or `None` where the tag does not verify. Of bytes that no [`seal`] gave back, such as
/// a sealed text cut short, nothing is claimed of whether the tag verifies.
#[verifier::external_body]
fn open(key: &[u8], nonce: [u8; 12], ciphertext: &[u8]) -> (r: Option<Vec<u8>>)
    requires
        key@.len() == KEY_LEN,
    ensures
        (match r {
            Some(plaintext) => Some(plaintext@),
            None => None,
        }) == opened(key@, nonce@, ciphertext@),
        r matches Some(plaintext) ==> plaintext@.len() + TAG_LEN == ciphertext@.len(),
{
    let key = ring::aead::UnboundKey::new(&ring::aead::CHACHA20_POLY1305, key).unwrap();
    let nonce = ring::aead::Nonce::assume_unique_for_key(nonce);
    let mut in_out = ciphertext.to_vec();
    match ring::aead::LessSafeKey::new(key).open_in_place(nonce, ring::aead::Aad::empty(), &mut in_out) {
        Ok(plaintext) => Some(plaintext.to_vec()),
        Err(_) => None,
    }
}

/// `ring::rand::SystemRandom::fill` on twelve bytes: a random nonce, or `None` where the operating
/// system yields no randomness. Nothing is claimed of the bytes, which differ from call to call.
#[verifier::external_body]
fn fresh_nonce() -> (r: Option<[u8; 12]>) {
    let mut nonce = [0u8; 12];
    match ring::rand::SecureRandom::fill(&ring::rand::SystemRandom::new(), &mut nonce) {
        Ok(()) => Some(nonce),
        Err(_) => None,
    }
}

/// `base64::engine::general_purpose::STANDARD.decode`.
#[verifier::external_body]
fn decode_base64(encoded: &str) -> (r: Option<Vec<u8>>)
    ensures
        (match r {
            Some(bytes) => Some(bytes@),
            None => None,
        }) == base64_decoded(encoded@),
{
    base64::Engine::decode(&base64::engine::general_purpose::STANDARD, encoded).ok()
}

/// `String::from_utf8`: the text whose UTF-8 encoding the bytes are, or `None` where they are none.
#[verifier::external_body]
fn utf8_text(bytes: Vec<u8>) -> (r: Option<String>)
    ensures
        r is Some <==> valid_utf8(bytes@),
        r matches Some(s) ==> encode_utf8(s@) == bytes@,
{
    String::from_utf8(bytes).ok()
}

/// A 32-byte key. It has no `Debug`, so key material cannot be formatted by accident.
pub struct Key {
    bytes: Vec<u8>,
}

impl Key {
    #[verifier::type_invariant]
    spec fn well_formed(self) -> bool {
        self.bytes@.len() == KEY_LEN
    }

    /// The raw key bytes.
    pub closed spec fn raw(self) -> Seq<u8> {
        self.bytes@
    }

    /// A key from raw bytes; `None` unless there are exactly 32 of them.
    pub fn from_bytes(bytes: &[u8]) -> (r: Option<Key>)
        ensures
            r is Some <==> bytes@.len() == KEY_LEN,
            r matches Some(key) ==> key.raw() == bytes@,
    {
        if !key_accepted(bytes) {
            return None;
        }
        let mut copy: Vec<u8> = Vec::new();
        copy.extend_from_slice(bytes);
        assert(copy@ =~= bytes@);
        Some(Key { bytes: copy })
    }

    /// A key from decoded bytes, where there are any.
    pub fn from_decoded(decoded: Option<Vec<u8>>) -> (r: Option<Key>)
        ensures
            r is Some <==> decoded is Some && decoded->0@.len() == KEY_LEN,
            r matches Some(key) ==> key.raw() == decoded->0@,
    {
        match decoded {
            Some(bytes) => Key::from_bytes(bytes.as_slice()),
            None => None,
        }
    }

    /// A key from standard base64, surrounding white space aside; `None` for invalid base64 or
    /// another length than 32 bytes.
    pub fn from_base64(encoded: &str) -> (r: Option<Key>)
        ensures
            ({
                let decoded = base64_decoded(text::trimmed(encoded@));
                &&& r is Some <==> decoded is Some && decoded->0.len() == KEY_LEN
                &&& r matches Some(key) ==> key.raw() == decoded->0
            }),
    {
        Key::from_decoded(decode_base64(text::trim(encoded)))
    }
}

/// The stored form of a plaintext: the nonce, then ciphertext and tag.
pub open spec fn stored_form(key: Seq<u8>, nonce: Seq<u8>, plaintext: Seq<u8>) -> Seq<u8> {
    nonce + sealed(key, nonce, plaintext)
}

/// The text that stored bytes decrypt to under a key: `None` where they are too short to hold a nonce
/// and a tag, where the tag does not verify, or where the plaintext is not UTF-8.
pub open spec fn decrypted(key: Seq<u8>, stored: Seq<u8>) -> Option<Seq<char>> {
    if stored.len() < NONCE_LEN + TAG_LEN {
        None
    } else {
        match opened(key, stored.take(NONCE_LEN as int), stored.skip(NONCE_LEN as int)) {
            Some(plaintext) => if valid_utf8(plaintext) {
                Some(decode_utf8(plaintext))
            } else {
                None
            },
            None => None,
        }
    }
}

/// Encrypts under a given nonce, which must not be used twice with one key.
pub fn encrypt_with_nonce(plaintext: &[u8], key: &Key, nonce: [u8; 12]) -> (r: Vec<u8>)
    requires
        plaintext@.len() <= MAX_PLAINTEXT_LEN,
    ensures
        r@ == stored_form(key.raw(), nonce@, plaintext@),
        r@.len() == NONCE_LEN + plaintext@.len() + TAG_LEN,
        opened(key.raw(), r@.take(NONCE_LEN as int), r@.skip(NONCE_LEN as int)) == Some(
            plaintext@,
        ),
{
    proof {
        use_type_invariant(key);
    }
    let mut body: Vec<u8> = seal(key.bytes.as_slice(), nonce, plaintext);
    let mut out: Vec<u8> = Vec::new();
    out.push(nonce[0]);
    out.push(nonce[1]);
    out.push(nonce[2]);
    out.push(nonce[3]);
    out.push(nonce[4]);
    out.push(nonce[5]);
    out.push(nonce[6]);
    out.push(nonce[7]);
    out.push(nonce[8]);
    out.push(nonce[9]);
    out.push(nonce[10]);
    out.push(nonce[11]);
    assert(out@ =~= nonce@);
    let ghost sealed_body = body@;
    out.append(&mut body);
    assert(out@ =~= nonce@ + sealed_body);
    assert(out@.take(NONCE_LEN as int) =~= nonce@);
    assert(out@.skip(NONCE_LEN as int) =~= sealed_body);
    out
}

/// Encrypts under the nonce that was drawn; `None` exactly where none could be.
pub fn encrypt_with_draw(plaintext: &[u8], key: &Key, drawn: Option<[u8; 12]>) -> (r: Option<Vec<u8>>)
    requires
        plaintext@.len() <= MAX_PLAINTEXT_LEN,
    ensures
        match drawn {
            Some(nonce) => r matches Some(stored) && {
                &&& stored@ == stored_form(key.raw(), nonce@, plaintext@)
                &&& stored@.take(NONCE_LEN as int) == nonce@
                &&& stored@.len() == NONCE_LEN + plaintext@.len() + TAG_LEN
                &&& opened(key.raw(), nonce@, stored@.skip(NONCE_LEN as int)) == Some(plaintext@)
            },
            None => r is None,
        },
{
    match drawn {
        Some(nonce) => {
            let stored = encrypt_with_nonce(plaintext, key, nonce);
            assert(stored@.take(NONCE_LEN as int) =~= nonce@);
            Some(stored)
        },
        None => None,
    }
}

/// Encrypts under a fresh random nonce; `None` only where no randomness could be had. Whatever the
/// nonce, the result is the stored form under it and opens to the plaintext again. Whether randomness
/// can be had is for the operating system to say; [`encrypt_with_draw`] says what follows either way.
pub fn encrypt(plaintext: &[u8], key: &Key) -> (r: Option<Vec<u8>>)
    requires
        plaintext@.len() <= MAX_PLAINTEXT_LEN,
    ensures
        r matches Some(stored) ==> {
            let nonce = stored@.take(NONCE_LEN as int);
            &&& stored@ == stored_form(key.raw(), nonce, plaintext@)
            &&& stored@.len() == NONCE_LEN + plaintext@.len() + TAG_LEN
            &&& opened(key.raw(), nonce, stored@.skip(NONCE_LEN as int)) == Some(plaintext@)
        },
{
    encrypt_with_draw(plaintext, key, fresh_nonce())
}

/// Decrypts stored bytes to the text they hold, or `None` on any failure. The text is always as long as
/// the bytes without nonce and tag.
pub fn decrypt(bytes: &[u8], key: &Key) -> (r: Option<String>)
    ensures
        text::opt_view(r) == decrypted(key.raw(), bytes@),
        r matches Some(s) ==> encode_utf8(s@).len() + NONCE_LEN + TAG_LEN == bytes@.len(),
{
    proof {
        use_type_invariant(key);
    }
    if bytes.len() < NONCE_LEN + TAG_LEN {
        return None;
    }
    let nonce: [u8; 12] = [
        bytes[0],
        bytes[1],
        bytes[2],
        bytes[3],
        bytes[4],
        bytes[5],
        bytes[6],
        bytes[7],
        bytes[8],
        bytes[9],
        bytes[10],
        bytes[11],
    ];
    assert(nonce@ =~= bytes@.take(NONCE_LEN as int));
    let (_, ciphertext) = bytes.split_at(NONCE_LEN);
    assert(ciphertext@ =~= bytes@.skip(NONCE_LEN as int));
    match open(key.bytes.as_slice(), nonce, ciphertext) {
        Some(plaintext) => {
            let r: Option<String> = utf8_text(plaintext);
            proof {
                if r is Some {
                    vstd::utf8::encode_utf8_decode_utf8(r->0@);
                }
            }
            r
        },
        None => None,
    }
}

/// Whatever was stored for a token decrypts to the token again under the same key: what
/// [`encrypt`] and [`encrypt_with_nonce`] promise of their result is all that it takes.
pub proof fn law_decrypt_undoes_encrypt(key: Seq<u8>, token: Seq<char>, stored: Seq<u8>)
    requires
        stored.len() == NONCE_LEN + encode_utf8(token).len() + TAG_LEN,
        opened(key, stored.take(NONCE_LEN as int), stored.skip(NONCE_LEN as int)) == Some(
            encode_utf8(token),
        ),
    ensures
        decrypted(key, stored) == Some(token),
{
    vstd::utf8::encode_utf8_valid_utf8(token);
    vstd::utf8::encode_utf8_decode_utf8(token);
}

/// Nothing shorter than a nonce and a tag decrypts, whatever the key.
pub proof fn law_truncated_token_is_refused(key: Seq<u8>, stored: Seq<u8>)
    requires
        stored.len() < NONCE_LEN + TAG_LEN,
    ensures
        decrypted(key, stored) is None,
{
}

/// However much of a stored token is cut off, what is left never decrypts to the token again. Below a
/// nonce and a tag it does not decrypt at all; above, whether the tag of the bytes that are left verifies
/// is the cipher's to say, and what [`decrypt`] promises of the length of its result is all that it takes.
pub proof fn law_cut_token_is_not_the_token(key: Seq<u8>, token: Seq<char>, stored: Seq<u8>, n: int)
    requires
        stored.len() == NONCE_LEN + encode_utf8(token).len() + TAG_LEN,
        0 <= n < stored.len(),
        decrypted(key, stored.take(n)) matches Some(s) ==> encode_utf8(s).len() + NONCE_LEN + TAG_LEN
            == n,
    ensures
        decrypted(key, stored.take(n)) != Some(token),
        n < NONCE_LEN + TAG_LEN ==> decrypted(key, stored.take(n)) is None,
{
}

} // verus!

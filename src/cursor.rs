//! Opaque pagination cursors: AES-256-GCM sealed, scoped to an API name by the
//! associated data, and base64url encoded (no padding) as
//! `nonce ∥ ciphertext ∥ tag`.

use aes_gcm::aead::{Aead, KeyInit, OsRng, Payload};
use aes_gcm::{Aes256Gcm, Key, Nonce};
use base64::engine::general_purpose::URL_SAFE_NO_PAD;
use base64::Engine;
use rand::RngCore;
use vstd::prelude::*;
use vstd::string::*;
use vstd::utf8::*;

verus! {

pub const NONCE_LEN: usize = 12;

pub const TAG_LEN: usize = 16;

pub const KEY_LEN: usize = 32;

/// Longest message and associated data that AES-GCM seals (2^36 bytes).
pub const GCM_MAX_LEN: u64 = 68719476736;

/// Ciphertext with the appended tag that AES-256-GCM yields for a key, a nonce,
/// associated data and a message.
pub uninterp spec fn aes256_gcm_seal(key: Seq<u8>, nonce: Seq<u8>, aad: Seq<u8>, msg: Seq<u8>) -> Seq<u8>;

/// Base64url text (URL-safe alphabet, no padding) of a byte string.
pub uninterp spec fn base64url_of(bytes: Seq<u8>) -> Seq<char>;

/// Relies on `Aes256Gcm::generate_key` of aes_gcm, fed by the operating system's
/// generator: a fresh 256-bit key.
#[verifier::external_body]
fn os_random_key() -> (r: Vec<u8>)
    ensures
        r@.len() == KEY_LEN,
{
    Aes256Gcm::generate_key(OsRng).to_vec()
}

/// Relies on rand's thread-local generator (`rand::rng().fill_bytes`): random nonce bytes.
#[verifier::external_body]
fn random_nonce() -> (r: Vec<u8>)
    ensures
        r@.len() == NONCE_LEN,
{
    let mut nonce = [0u8; NONCE_LEN];
    rand::rng().fill_bytes(&mut nonce);
    nonce.to_vec()
}

/// Relies on `Aead::encrypt` of aes_gcm's `Aes256Gcm`: it fails exactly when the
/// message or the associated data exceed 2^36 bytes, and otherwise returns the
/// ciphertext (as long as the message) followed by the 16-byte tag.
#[verifier::external_body]
fn gcm_encrypt(key: &[u8], nonce: &[u8], aad: &[u8], msg: &[u8]) -> (r: Option<Vec<u8>>)
    requires
        key@.len() == KEY_LEN,
        nonce@.len() == NONCE_LEN,
    ensures
        r is Some <==> (msg@.len() <= GCM_MAX_LEN && aad@.len() <= GCM_MAX_LEN),
        r matches Some(c) ==> c@ == aes256_gcm_seal(key@, nonce@, aad@, msg@),
        r matches Some(c) ==> c@.len() == msg@.len() + TAG_LEN,
{
    let cipher = Aes256Gcm::new(Key::<Aes256Gcm>::from_slice(key));
    cipher.encrypt(Nonce::from_slice(nonce), Payload { msg, aad }).ok()
}

/// Relies on `Aead::decrypt` of aes_gcm's `Aes256Gcm`: it accepts the seal of a
/// message under the same key, nonce and associated data and returns that
/// message; what it accepts (within the length limits) is such a seal.
#[verifier::external_body]
fn gcm_decrypt(key: &[u8], nonce: &[u8], aad: &[u8], data: &[u8]) -> (r: Option<Vec<u8>>)
    requires
        key@.len() == KEY_LEN,
        nonce@.len() == NONCE_LEN,
    ensures
        r matches Some(m) ==> (m@.len() <= GCM_MAX_LEN && aad@.len() <= GCM_MAX_LEN
            ==> data@ == aes256_gcm_seal(key@, nonce@, aad@, m@)),
        r matches Some(m) ==> m@.len() + TAG_LEN == data@.len(),
        forall|m: Seq<u8>|
            #[trigger] aes256_gcm_seal(key@, nonce@, aad@, m) == data@ && m.len() <= GCM_MAX_LEN
                && aad@.len() <= GCM_MAX_LEN ==> r is Some && r->Some_0@ == m,
{
    let cipher = Aes256Gcm::new(Key::<Aes256Gcm>::from_slice(key));
    cipher.decrypt(Nonce::from_slice(nonce), Payload { msg: data, aad }).ok()
}

/// Relies on base64's `URL_SAFE_NO_PAD` engine `encode`: four characters
/// for every three bytes, a partial group unpadded.
#[verifier::external_body]
fn base64url_encode(bytes: &[u8]) -> (r: String)
    ensures
        r@ == base64url_of(bytes@),
        r@.len() == (4 * bytes@.len() + 2) / 3,
{
    URL_SAFE_NO_PAD.encode(bytes)
}

/// Relies on base64's `URL_SAFE_NO_PAD` engine `decode`: it requires canonical
/// input (no padding, no stray trailing bits), so it succeeds exactly on the
/// encodings of byte strings and returns those bytes.
#[verifier::external_body]
pub(crate) fn base64url_decode(text: &str) -> (r: Option<Vec<u8>>)
    ensures
        r matches Some(b) ==> text@ == base64url_of(b@),
        r matches Some(b) ==> text@.len() == (4 * b@.len() + 2) / 3,
        forall|b: Seq<u8>| #[trigger] base64url_of(b) == text@ ==> r is Some && r->Some_0@ == b,
{
    URL_SAFE_NO_PAD.decode(text).ok()
}

/// Relies on `String::from_utf8`: it succeeds exactly on valid UTF-8 and decodes it.
#[verifier::external_body]
fn string_from_utf8(bytes: Vec<u8>) -> (r: Option<String>)
    ensures
        r is Some <==> valid_utf8(bytes@),
        r matches Some(s) ==> s@ == decode_utf8(bytes@),
{
    String::from_utf8(bytes).ok()
}

/// Why a cursor could not be sealed or opened.
#[derive(Debug, Clone, Copy, PartialEq, Eq)]
pub enum CursorError {
    /// The plaintext or the associated data is too long to seal.
    Encryption,
    /// The text is not canonical base64url.
    BadBase64,
    /// The decoded bytes hold no more than a nonce.
    ShortData,
    /// The ciphertext does not authenticate under this key and associated data.
    BadSeal,
    /// The unsealed bytes are not UTF-8.
    BadUtf8,
}

/// The text of a cursor sealing `plain` under `key` and `aad` with `nonce`.
pub open spec fn sealed_cursor(key: Seq<u8>, nonce: Seq<u8>, aad: Seq<u8>, plain: Seq<char>) -> Seq<char> {
    base64url_of(nonce + aes256_gcm_seal(key, nonce, aad, encode_utf8(plain)))
}

/// `plain` and `aad` are short enough to be sealed.
pub open spec fn sealable(aad: Seq<u8>, plain: Seq<char>) -> bool {
    encode_utf8(plain).len() <= GCM_MAX_LEN && aad.len() <= GCM_MAX_LEN
}

/// `text` is a cursor that seals `plain` under `key` and `aad`, with some nonce.
pub open spec fn opens_to(key: Seq<u8>, aad: Seq<u8>, text: Seq<char>, plain: Seq<char>) -> bool {
    exists|nonce: Seq<u8>|
        nonce.len() == NONCE_LEN && sealable(aad, plain)
            && aes256_gcm_seal(key, nonce, aad, encode_utf8(plain)).len() == encode_utf8(plain).len() + TAG_LEN
            && #[trigger] sealed_cursor(key, nonce, aad, plain) == text
}

/// What opening the cursor text `value` under `key` and `aad` may return: the
/// plaintext of any seal that the text is, and otherwise the first check that
/// failed.
pub open spec fn cursor_opening(key: Seq<u8>, aad: Seq<u8>, value: Seq<char>, r: Result<String, CursorError>) -> bool {
    &&& forall|plain: Seq<char>| #[trigger] opens_to(key, aad, value, plain) ==> (r matches Ok(p) && p@ == plain)
    &&& r matches Ok(p) ==> (sealable(aad, p@) ==> exists|nonce: Seq<u8>|
        nonce.len() == NONCE_LEN && #[trigger] sealed_cursor(key, nonce, aad, p@) == value)
    &&& r matches Ok(p) ==> encode_utf8(p@).len() <= value.len()
    &&& r matches Ok(p) ==> forall|b: Seq<u8>| #[trigger] base64url_of(b) == value ==> encode_utf8(p@).len() + NONCE_LEN + TAG_LEN
        == b.len() && (sealable(aad, p@) ==> exists|nonce: Seq<u8>|
        nonce.len() == NONCE_LEN && b == nonce + aes256_gcm_seal(key, nonce, aad, encode_utf8(p@)))
    &&& r == Err::<String, CursorError>(CursorError::BadBase64) <==> forall|b: Seq<u8>| base64url_of(b) != value
    &&& r == Err::<String, CursorError>(CursorError::ShortData) <==> exists|b: Seq<u8>|
        base64url_of(b) == value && b.len() <= NONCE_LEN
    &&& r == Err::<String, CursorError>(CursorError::BadSeal) ==> forall|nonce: Seq<u8>, plain: Seq<u8>|
        nonce.len() == NONCE_LEN && plain.len() <= GCM_MAX_LEN && aad.len() <= GCM_MAX_LEN
        ==> base64url_of(nonce + aes256_gcm_seal(key, nonce, aad, plain)) != value
}

/// A fresh random key for sealing cursors.
pub fn generate_cursor_key() -> (r: Vec<u8>)
    ensures
        r@.len() == KEY_LEN,
{
    os_random_key()
}

/// Seals `cursor` under `key`, bound to `associated_data`, with a fresh random nonce.
pub fn encrypt_cursor(key: &[u8], associated_data: &[u8], cursor: &str) -> (r: Result<String, CursorError>)
    requires
        key@.len() == KEY_LEN,
    ensures
        r is Ok <==> sealable(associated_data@, cursor@),
        r is Err ==> r == Err::<String, CursorError>(CursorError::Encryption),
        r matches Ok(s) ==> opens_to(key@, associated_data@, s@, cursor@),
{
    let nonce = random_nonce();
    let plain = cursor.as_bytes();
    match gcm_encrypt(key, nonce.as_slice(), associated_data, plain) {
        None => Err(CursorError::Encryption),
        Some(sealed) => {
            let mut data = nonce.clone();
            let mut tail = sealed;
            data.append(&mut tail);
            let text = base64url_encode(data.as_slice());
            assert(data@ =~= nonce@ + aes256_gcm_seal(key@, nonce@, associated_data@, encode_utf8(cursor@)));
            assert(sealed_cursor(key@, nonce@, associated_data@, cursor@) == text@);
            assert(opens_to(key@, associated_data@, text@, cursor@));
            Ok(text)
        },
    }
}

/// Opens a cursor sealed by [`encrypt_cursor`] under the same key and associated data.
pub fn decrypt_cursor(key: &[u8], associated_data: &[u8], value: &str) -> (r: Result<String, CursorError>)
    requires
        key@.len() == KEY_LEN,
    ensures
        cursor_opening(key@, associated_data@, value@, r),
{
    let data = match base64url_decode(value) {
        None => {
            return Err(CursorError::BadBase64);
        },
        Some(d) => d,
    };
    if data.len() <= NONCE_LEN {
        proof {
            assert forall|plain: Seq<char>| #[trigger] opens_to(key@, associated_data@, value@, plain) implies false by {
                let n = choose|n: Seq<u8>| n.len() == NONCE_LEN && sealable(associated_data@, plain)
                    && aes256_gcm_seal(key@, n, associated_data@, encode_utf8(plain)).len() == encode_utf8(plain).len() + TAG_LEN
                    && #[trigger] sealed_cursor(key@, n, associated_data@, plain) == value@;
                assert(n + aes256_gcm_seal(key@, n, associated_data@, encode_utf8(plain)) == data@);
            }
        }
        return Err(CursorError::ShortData);
    }
    let (nonce, sealed) = data.as_slice().split_at(NONCE_LEN);
    assert(data@ =~= nonce@ + sealed@);
    match gcm_decrypt(key, nonce, associated_data, sealed) {
        None => {
            assert forall|n: Seq<u8>, plain: Seq<u8>|
                n.len() == NONCE_LEN && plain.len() <= GCM_MAX_LEN && associated_data@.len() <= GCM_MAX_LEN
                implies base64url_of(n + aes256_gcm_seal(key@, n, associated_data@, plain)) != value@ by {
                if base64url_of(n + aes256_gcm_seal(key@, n, associated_data@, plain)) == value@ {
                    let full = n + aes256_gcm_seal(key@, n, associated_data@, plain);
                    assert(full == data@);
                    assert(full.subrange(0, NONCE_LEN as int) =~= n);
                    assert(data@.subrange(0, NONCE_LEN as int) =~= nonce@);
                    assert(full.subrange(NONCE_LEN as int, full.len() as int) =~= aes256_gcm_seal(key@, n, associated_data@, plain));
                    assert(data@.subrange(NONCE_LEN as int, data@.len() as int) =~= sealed@);
                }
            }
            Err(CursorError::BadSeal)
        },
        Some(bytes) => {
            let ghost raw = bytes@;
            match string_from_utf8(bytes) {
                None => {
                    proof {
                        assert forall|plain: Seq<char>| #[trigger] opens_to(key@, associated_data@, value@, plain) implies false by {
                            let n = choose|n: Seq<u8>| n.len() == NONCE_LEN && sealable(associated_data@, plain)
                                && aes256_gcm_seal(key@, n, associated_data@, encode_utf8(plain)).len() == encode_utf8(plain).len() + TAG_LEN
                                && #[trigger] sealed_cursor(key@, n, associated_data@, plain) == value@;
                            let full = n + aes256_gcm_seal(key@, n, associated_data@, encode_utf8(plain));
                            assert(full == data@);
                            assert(full.subrange(0, NONCE_LEN as int) =~= n);
                            assert(data@.subrange(0, NONCE_LEN as int) =~= nonce@);
                            assert(full.subrange(NONCE_LEN as int, full.len() as int) =~= aes256_gcm_seal(key@, n, associated_data@, encode_utf8(plain)));
                            assert(data@.subrange(NONCE_LEN as int, data@.len() as int) =~= sealed@);
                            encode_utf8_valid_utf8(plain);
                        }
                    }
                    Err(CursorError::BadUtf8)
                },
                Some(text) => {
                    proof {
                        assert forall|plain: Seq<char>| #[trigger] opens_to(key@, associated_data@, value@, plain) implies text@ == plain by {
                            let n = choose|n: Seq<u8>| n.len() == NONCE_LEN && sealable(associated_data@, plain)
                                && aes256_gcm_seal(key@, n, associated_data@, encode_utf8(plain)).len() == encode_utf8(plain).len() + TAG_LEN
                                && #[trigger] sealed_cursor(key@, n, associated_data@, plain) == value@;
                            let full = n + aes256_gcm_seal(key@, n, associated_data@, encode_utf8(plain));
                            assert(full == data@);
                            assert(full.subrange(0, NONCE_LEN as int) =~= n);
                            assert(data@.subrange(0, NONCE_LEN as int) =~= nonce@);
                            assert(full.subrange(NONCE_LEN as int, full.len() as int) =~= aes256_gcm_seal(key@, n, associated_data@, encode_utf8(plain)));
                            assert(data@.subrange(NONCE_LEN as int, data@.len() as int) =~= sealed@);
                            encode_utf8_decode_utf8(plain);
                        }
                        decode_utf8_encode_utf8(raw);
                        assert(encode_utf8(text@) == raw);
                        assert(raw.len() + NONCE_LEN + TAG_LEN == data@.len());
                        assert(data@.len() <= value@.len()) by (nonlinear_arith)
                            requires value@.len() == (4 * data@.len() + 2) / 3;
                        if sealable(associated_data@, text@) {
                            encode_utf8_decode_utf8(text@);
                            assert(sealed_cursor(key@, nonce@, associated_data@, text@) == value@);
                            assert(nonce@.len() == NONCE_LEN);
                        }
                        assert forall|b: Seq<u8>| #[trigger] base64url_of(b) == value@ implies encode_utf8(text@).len() + NONCE_LEN
                            + TAG_LEN == b.len() && (sealable(associated_data@, text@) ==> exists|n: Seq<u8>|
                            n.len() == NONCE_LEN && b == n + aes256_gcm_seal(key@, n, associated_data@, encode_utf8(text@))) by {
                            assert(b == data@);
                            if sealable(associated_data@, text@) {
                                assert(data@ == nonce@ + aes256_gcm_seal(key@, nonce@, associated_data@, encode_utf8(text@)));
                            }
                        }
                    }
                    Ok(text)
                },
            }
        },
    }
}

/// Opening what was sealed under the same key and associated data gives the
/// plaintext back: whatever [`decrypt_cursor`] may return for a text that
/// [`encrypt_cursor`] returned for `plain` is `Ok(plain)`.
pub proof fn lemma_cursor_round_trip(
    key: Seq<u8>,
    aad: Seq<u8>,
    plain: Seq<char>,
    text: Seq<char>,
    r: Result<String, CursorError>,
)
    requires
        opens_to(key, aad, text, plain),
        cursor_opening(key, aad, text, r),
    ensures
        r matches Ok(p) && p@ == plain,
{
}

/// A cursor sealed for one API does not open for another: a text sealed
/// under `aad` with `nonce`, offered under different associated data
/// `other`, yields an error — on every input but those where some message
/// sealed under `other` with that nonce has the very same ciphertext and
/// tag (an AES-GCM forgery), which the requirement leaves out.
pub proof fn lemma_cursor_scoped(
    key: Seq<u8>,
    aad: Seq<u8>,
    other: Seq<u8>,
    nonce: Seq<u8>,
    plain: Seq<char>,
    r: Result<String, CursorError>,
)
    requires
        nonce.len() == NONCE_LEN,
        sealable(aad, plain),
        aad != other,
        other.len() <= GCM_MAX_LEN,
        aes256_gcm_seal(key, nonce, aad, encode_utf8(plain)).len() == encode_utf8(plain).len() + TAG_LEN,
        forall|m: Seq<u8>| #[trigger] aes256_gcm_seal(key, nonce, other, m) != aes256_gcm_seal(key, nonce, aad, encode_utf8(plain)),
        cursor_opening(key, other, sealed_cursor(key, nonce, aad, plain), r),
    ensures
        r is Err,
{
    if r is Ok {
        let p = r->Ok_0;
        let b = nonce + aes256_gcm_seal(key, nonce, aad, encode_utf8(plain));
        assert(base64url_of(b) == sealed_cursor(key, nonce, aad, plain));
        assert(encode_utf8(p@).len() + NONCE_LEN + TAG_LEN == b.len());
        assert(sealable(other, p@));
        let n = choose|n: Seq<u8>| n.len() == NONCE_LEN && b == n + aes256_gcm_seal(key, n, other, encode_utf8(p@));
        assert(b.subrange(0, NONCE_LEN as int) =~= n);
        assert(b.subrange(0, NONCE_LEN as int) =~= nonce);
        assert(b.subrange(NONCE_LEN as int, b.len() as int) =~= aes256_gcm_seal(key, n, other, encode_utf8(p@)));
        assert(b.subrange(NONCE_LEN as int, b.len() as int) =~= aes256_gcm_seal(key, nonce, aad, encode_utf8(plain)));
    }
}

} // verus!

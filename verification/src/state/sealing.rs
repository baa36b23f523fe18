//! The encryption of what is stored at rest.
//!
//! A blob is a nonce followed by what AES-256-GCM makes of the plain bytes
//! under that nonce.
use crate::state::secrets::{KEY_LEN, NONCE_LEN};
use crate::state::secrets::{ErrorKind, SecretError};
use crate::text;
use crate::text::{cat, cat4, decimal_string, owned};
use crate::util::crypto::thread_random;
use aes_gcm::aead::{Aead, KeyInit};
use vstd::prelude::*;

verus! {

/// The most bytes that AES-GCM takes.
pub const PLAIN_MAX: u64 = 0x10_0000_0000;

/// What AES-256-GCM makes of plain bytes under a key and a nonce.
pub uninterp spec fn gcm_sealed(key: Seq<u8>, nonce: Seq<u8>, plain: Seq<u8>) -> Option<Seq<u8>>;

/// What AES-256-GCM recovers from sealed bytes under a key and a nonce.
pub uninterp spec fn gcm_opened(key: Seq<u8>, nonce: Seq<u8>, sealed: Seq<u8>) -> Option<Seq<u8>>;

/// `aes_gcm::Aes256Gcm::encrypt`. The contract names what comes out and states
/// that it is made of at most `PLAIN_MAX` bytes and fails on more, is longer
/// than the plain bytes by the tag of 16 bytes, and is opened again under the
/// same key and nonce.
#[verifier::external_body]
fn gcm_encrypt(key: &[u8], nonce: &[u8], plain: &[u8]) -> (r: Option<Vec<u8>>)
    requires
        key@.len() == KEY_LEN,
        nonce@.len() == NONCE_LEN,
        plain@.len() + 16 <= isize::MAX,
    ensures
        match r {
            Some(c) => gcm_sealed(key@, nonce@, plain@) == Some(c@) && c@.len() == plain@.len() + 16
                && gcm_opened(key@, nonce@, c@) == Some(plain@),
            None => gcm_sealed(key@, nonce@, plain@) is None,
        },
        r is Some <==> plain@.len() <= PLAIN_MAX,
{
    let cipher = aes_gcm::Aes256Gcm::new(aes_gcm::Key::<aes_gcm::Aes256Gcm>::from_slice(key));
    cipher.encrypt(aes_gcm::Nonce::from_slice(nonce), plain).ok()
}

/// `aes_gcm::Aes256Gcm::decrypt`. The contract names what comes out: the plain
/// bytes, shorter than the sealed ones by the tag of 16 bytes, or nothing.
#[verifier::external_body]
fn gcm_decrypt(key: &[u8], nonce: &[u8], sealed: &[u8]) -> (r: Option<Vec<u8>>)
    requires
        key@.len() == KEY_LEN,
        nonce@.len() == NONCE_LEN,
    ensures
        match r {
            Some(p) => gcm_opened(key@, nonce@, sealed@) == Some(p@) && sealed@.len() == p@.len()
                + 16,
            None => gcm_opened(key@, nonce@, sealed@) is None,
        },
{
    let cipher = aes_gcm::Aes256Gcm::new(aes_gcm::Key::<aes_gcm::Aes256Gcm>::from_slice(key));
    cipher.decrypt(aes_gcm::Nonce::from_slice(nonce), sealed).ok()
}

/// The blob of plain bytes under a key and a nonce, if there is one.
pub open spec fn blob(key: Seq<u8>, nonce: Seq<u8>, plain: Seq<u8>) -> Option<Seq<u8>> {
    match gcm_sealed(key, nonce, plain) {
        Some(c) => Some(nonce + c),
        None => None,
    }
}

/// What a blob opens to under a key: the plain bytes, or why it does not open.
pub open spec fn unsealed(key: Seq<u8>, b: Seq<u8>) -> Result<Seq<u8>, Seq<char>> {
    if b.len() < NONCE_LEN {
        Err("blob shorter than nonce"@)
    } else {
        match gcm_opened(key, b.take(NONCE_LEN as int), b.skip(NONCE_LEN as int)) {
            Some(p) => Ok(p),
            None => Err("aead::Error"@),
        }
    }
}

fn copy_range(b: &[u8], from: usize, to: usize) -> (r: Vec<u8>)
    requires
        from <= to <= b@.len(),
    ensures
        r@ == b@.subrange(from as int, to as int),
{
    let mut r: Vec<u8> = Vec::new();
    let mut i: usize = from;
    while i < to
        invariant
            from <= i <= to <= b@.len(),
            r@ == b@.subrange(from as int, i as int),
        decreases to - i,
    {
        r.push(b[i]);
        i = i + 1;
        proof {
            assert(b@.subrange(from as int, i as int) =~= b@.subrange(from as int, i - 1).push(
                b@[i - 1],
            ));
        }
    }
    r
}

/// The blob of plain bytes under a key and a given nonce.
pub fn frame_blob(key: &[u8], nonce: &[u8], plain: &[u8]) -> (r: Result<Vec<u8>, String>)
    requires
        key@.len() == KEY_LEN,
        nonce@.len() == NONCE_LEN,
        plain@.len() + 16 <= isize::MAX,
    ensures
        match r {
            Ok(b) => blob(key@, nonce@, plain@) == Some(b@) && unsealed(key@, b@) == Ok::<
                Seq<u8>,
                Seq<char>,
            >(plain@) && b@.len() == plain@.len() + 28,
            Err(e) => blob(key@, nonce@, plain@) is None && e@ == "aead::Error"@,
        },
        r is Ok <==> plain@.len() <= PLAIN_MAX,
{
    match gcm_encrypt(key, nonce, plain) {
        Some(c) => {
            let mut out = copy_range(nonce, 0, nonce.len());
            let mut sealed = c;
            out.append(&mut sealed);
            proof {
                assert(nonce@.subrange(0, nonce@.len() as int) =~= nonce@);
                assert(out@ =~= nonce@ + c@);
                assert(out@.take(NONCE_LEN as int) =~= nonce@);
                assert(out@.skip(NONCE_LEN as int) =~= c@);
            }
            Ok(out)
        },
        None => Err(owned("aead::Error")),
    }
}

/// A blob of plain bytes under a key, with a nonce of its own. Whatever the
/// nonce was, the blob opens to the bytes again.
pub fn encrypt_blob(key: &[u8], plain: &[u8]) -> (r: Result<Vec<u8>, String>)
    requires
        key@.len() == KEY_LEN,
        plain@.len() + 16 <= isize::MAX,
    ensures
        match r {
            Ok(b) => unsealed(key@, b@) == Ok::<Seq<u8>, Seq<char>>(plain@) && b@.len()
                == plain@.len() + 28,
            Err(e) => e@ == "aead::Error"@,
        },
        r is Ok <==> plain@.len() <= PLAIN_MAX,
{
    let nonce = thread_random(NONCE_LEN);
    frame_blob(key, nonce.as_slice(), plain)
}

/// The plain bytes of a blob, or why it does not open.
pub fn decrypt_blob(key: &[u8], b: &[u8]) -> (r: Result<Vec<u8>, String>)
    requires
        key@.len() == KEY_LEN,
    ensures
        match r {
            Ok(p) => unsealed(key@, b@) == Ok::<Seq<u8>, Seq<char>>(p@),
            Err(e) => unsealed(key@, b@) == Err::<Seq<u8>, Seq<char>>(e@),
        },
{
    if b.len() < NONCE_LEN {
        return Err(owned("blob shorter than nonce"));
    }
    let nonce = copy_range(b, 0, NONCE_LEN);
    let sealed = copy_range(b, NONCE_LEN, b.len());
    proof {
        assert(b@.subrange(0, NONCE_LEN as int) =~= b@.take(NONCE_LEN as int));
        assert(b@.subrange(NONCE_LEN as int, b@.len() as int) =~= b@.skip(NONCE_LEN as int));
    }
    match gcm_decrypt(key, nonce.as_slice(), sealed.as_slice()) {
        Some(p) => Ok(p),
        None => Err(owned("aead::Error")),
    }
}

/// Whether a key file holds a key: exactly as many bytes as a key has.
pub fn check_key(path: &str, bytes: &Vec<u8>) -> (r: Result<(), SecretError>)
    ensures
        r is Ok <==> bytes@.len() == KEY_LEN,
        r matches Err(e) ==> e.kind == ErrorKind::InvalidData && e.message@
            == "secret key file "@ + path@ + " must contain exactly 32 bytes (got "@
            + text::decimal(bytes@.len()) + ")"@,
{
    if bytes.len() == KEY_LEN {
        Ok(())
    } else {
        let got = decimal_string(bytes.len() as u64);
        let said = cat4(
            "secret key file ",
            path,
            " must contain exactly 32 bytes (got ",
            got.as_str(),
        );
        Err(SecretError { kind: ErrorKind::InvalidData, message: cat(said.as_str(), ")") })
    }
}

/// A blob is its nonce and what was sealed under it; one that is too short for a nonce
/// does not open, and one opens just where what was sealed does.
pub proof fn what_a_blob_is(key: Seq<u8>, nonce: Seq<u8>, c: Seq<u8>, short: Seq<u8>)
    requires
        nonce.len() == 12,
        short.len() < 12,
    ensures
        unsealed(key, short) == Err::<Seq<u8>, Seq<char>>("blob shorter than nonce"@),
        gcm_opened(key, nonce, c) matches Some(p) ==> unsealed(key, nonce + c) == Ok::<
            Seq<u8>,
            Seq<char>,
        >(p),
        gcm_opened(key, nonce, c) is None ==> unsealed(key, nonce + c) == Err::<
            Seq<u8>,
            Seq<char>,
        >("aead::Error"@),
{
    assert((nonce + c).take(12) =~= nonce);
    assert((nonce + c).skip(12) =~= c);
}

/// What is sealed is stored behind its nonce.
pub proof fn what_a_blob_holds(key: Seq<u8>, nonce: Seq<u8>, plain: Seq<u8>)
    ensures
        gcm_sealed(key, nonce, plain) matches Some(c) ==> blob(key, nonce, plain) == Some(
            nonce + c,
        ),
        gcm_sealed(key, nonce, plain) is None ==> blob(key, nonce, plain) is None,
{
}

} // verus!

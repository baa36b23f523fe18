//! Digests, encodings and chance.
use base64::Engine;
use rand::RngCore;
use sha2::Digest;
use vstd::prelude::*;

verus! {

/// What SHA-256 makes of bytes.
pub uninterp spec fn sha256(bytes: Seq<u8>) -> Seq<u8>;

/// `sha2::Sha256` over the whole of the bytes: a digest of 32 bytes. The
/// contract names it.
#[verifier::external_body]
pub(crate) fn sha256_digest(bytes: &[u8]) -> (r: Vec<u8>)
    ensures
        r@ == sha256(bytes@),
        r@.len() == 32,
{
    sha2::Sha256::digest(bytes).to_vec()
}

/// The lower-case hexadecimal character of a value below 16.
pub open spec fn hex_char(n: int) -> char {
    if n < 10 {
        (n + 48) as char
    } else {
        (n + 87) as char
    }
}

/// Bytes in lower-case hexadecimal, two characters each, the high half first.
pub open spec fn hex(bytes: Seq<u8>) -> Seq<char> {
    Seq::new(
        bytes.len() * 2,
        |i: int|
            if i % 2 == 0 {
                hex_char(bytes[i / 2] as int / 16)
            } else {
                hex_char(bytes[i / 2] as int % 16)
            },
    )
}

/// `hex::encode`: each byte as two lower-case hexadecimal characters.
#[verifier::external_body]
pub(crate) fn hex_string(bytes: &[u8]) -> (r: String)
    requires
        bytes@.len() * 2 <= isize::MAX,
    ensures
        r@ == hex(bytes@),
{
    hex::encode(bytes)
}

/// Whether a character is one of the 64 that `base64`'s URL-safe alphabet has.
pub open spec fn url_safe(c: char) -> bool {
    'A' <= c <= 'Z' || 'a' <= c <= 'z' || '0' <= c <= '9' || c == '-' || c == '_'
}

/// What URL-safe base64 without padding makes of bytes.
pub uninterp spec fn base64url(bytes: Seq<u8>) -> Seq<char>;

/// `base64`'s `URL_SAFE_NO_PAD` engine, `encode`. The contract names what comes
/// out: for every three bytes four characters of the URL-safe alphabet, for one
/// or two bytes left over two or three.
#[verifier::external_body]
pub(crate) fn base64url_string(bytes: &[u8]) -> (r: String)
    requires
        (bytes@.len() * 4 + 2) / 3 <= isize::MAX,
    ensures
        r@ == base64url(bytes@),
        r@.len() == (bytes@.len() * 4 + 2) / 3,
        forall|i: int| 0 <= i < r@.len() ==> url_safe(#[trigger] r@[i]),
{
    base64::engine::general_purpose::URL_SAFE_NO_PAD.encode(bytes)
}

/// `rand::RngCore::fill_bytes` of the thread's generator: bytes by chance.
/// Nothing is said of which.
#[verifier::external_body]
pub(crate) fn thread_random(n: usize) -> (r: Vec<u8>)
    requires
        n <= isize::MAX,
    ensures
        r@.len() == n,
{
    let mut bytes = vec![0u8; n];
    rand::thread_rng().fill_bytes(&mut bytes);
    bytes
}

/// `rand::RngCore::fill_bytes` of the operating system's generator: bytes by
/// chance. Nothing is said of which.
#[verifier::external_body]
fn os_random(n: usize) -> (r: Vec<u8>)
    requires
        n <= isize::MAX,
    ensures
        r@.len() == n,
{
    let mut bytes = vec![0u8; n];
    rand::rngs::OsRng.fill_bytes(&mut bytes);
    bytes
}

/// A string of the URL-safe alphabet that carries `bytes` bytes of chance.
pub fn random_token(bytes: usize) -> (r: String)
    requires
        (bytes * 4 + 2) / 3 <= isize::MAX,
    ensures
        r@.len() == (bytes * 4 + 2) / 3,
        forall|i: int| 0 <= i < r@.len() ==> url_safe(#[trigger] r@[i]),
{
    let buf = os_random(bytes);
    base64url_string(buf.as_slice())
}

/// Whether two sequences of bytes are the same. Looks at every byte of two
/// sequences of one length, wherever they differ.
pub fn constant_time_eq(a: &[u8], b: &[u8]) -> (r: bool)
    ensures
        r == (a@ == b@),
{
    if a.len() != b.len() {
        return false;
    }
    let mut seen: u8 = 0;
    let mut i: usize = 0;
    proof {
        assert(a@.take(0) =~= b@.take(0));
    }
    while i < a.len()
        invariant
            i <= a.len(),
            a@.len() == b@.len(),
            seen == 0 <==> a@.take(i as int) == b@.take(i as int),
        decreases a.len() - i,
    {
        let x: u8 = a[i];
        let y: u8 = b[i];
        let next: u8 = seen | (x ^ y);
        proof {
            assert(seen | (x ^ y) == 0 <==> seen == 0 && x == y) by (bit_vector);
            let p = a@.take(i + 1);
            let q = b@.take(i + 1);
            assert(p.drop_last() =~= a@.take(i as int));
            assert(q.drop_last() =~= b@.take(i as int));
            if p == q {
                assert(p.last() == q.last());
            }
            if a@.take(i as int) == b@.take(i as int) && x == y {
                assert(p =~= a@.take(i as int).push(x));
                assert(q =~= b@.take(i as int).push(y));
            }
        }
        seen = next;
        i = i + 1;
    }
    proof {
        assert(a@.take(a@.len() as int) =~= a@);
        assert(b@.take(b@.len() as int) =~= b@);
    }
    seen == 0
}

/// Whether two strings are the same, as `constant_time_eq` compares their bytes.
pub fn constant_time_same(a: &str, b: &str) -> (r: bool)
    ensures
        r == (a@ == b@),
{
    proof {
        vstd::utf8::encode_utf8_decode_utf8(a@);
        vstd::utf8::encode_utf8_decode_utf8(b@);
    }
    constant_time_eq(a.as_bytes(), b.as_bytes())
}

/// A byte is written by two characters of the sixteen, the high half first, and is read
/// back from them.
pub proof fn how_bytes_are_written(bytes: Seq<u8>, i: int, n: int)
    ensures
        hex(bytes).len() == 2 * bytes.len(),
        0 <= i < bytes.len() ==> hex(bytes)[2 * i] == hex_char(bytes[i] as int / 16)
            && hex(bytes)[2 * i + 1] == hex_char(bytes[i] as int % 16),
        0 <= n < 10 ==> hex_char(n) as int - '0' as int == n && hex_char(n) <= '9',
        10 <= n < 16 ==> hex_char(n) as int - 'a' as int == n - 10 && hex_char(n) <= 'f',
{
}

/// The characters that are safe in an address are the letters and the digits of ASCII,
/// the hyphen and the underscore.
pub proof fn which_characters_are_safe(c: char)
    ensures
        url_safe('A') && url_safe('Z') && url_safe('a') && url_safe('z') && url_safe('0')
            && url_safe('9') && url_safe('-') && url_safe('_'),
        'A' < c && c < 'Z' || 'a' < c && c < 'z' || '0' < c && c < '9' ==> url_safe(c),
        c < '-' || c == '.' || c == '/' || ('9' < c && c < 'A') || ('Z' < c && c < '_') || c == '`'
            || c > 'z' ==> !url_safe(c),
{
}

} // verus!

//! Hex, randomness: the outside calls that the configuration makes.
use base64::Engine as _;
use rand::Rng;
use vstd::prelude::*;

verus! {

/// The lowercase hex digit for `n < 16`.
pub open spec fn hex_digit(n: nat) -> char {
    if n < 10 {
        crate::text::digit_char(n)
    } else if n == 10 { 'a' }
    else if n == 11 { 'b' }
    else if n == 12 { 'c' }
    else if n == 13 { 'd' }
    else if n == 14 { 'e' }
    else { 'f' }
}

/// Lowercase hex, two digits per byte, high nibble first.
pub open spec fn hex_lower(b: Seq<u8>) -> Seq<char>
    decreases b.len(),
{
    if b.len() == 0 {
        Seq::empty()
    } else {
        hex_lower(b.drop_last()) + seq![hex_digit(b.last() as nat / 16), hex_digit(b.last() as nat % 16)]
    }
}

pub open spec fn is_hex_lower_char(c: char) -> bool {
    ('0' <= c && c <= '9') || ('a' <= c && c <= 'f')
}

pub proof fn lemma_hex_lower(b: Seq<u8>)
    ensures
        hex_lower(b).len() == 2 * b.len(),
        forall|i: int| 0 <= i < hex_lower(b).len() ==> is_hex_lower_char(#[trigger] hex_lower(b)[i]),
    decreases b.len(),
{
    if b.len() > 0 {
        lemma_hex_lower(b.drop_last());
        let h = hex_lower(b.drop_last());
        let t = seq![hex_digit(b.last() as nat / 16), hex_digit(b.last() as nat % 16)];
        assert(hex_lower(b) == h + t);
        assert forall|i: int| 0 <= i < hex_lower(b).len() implies is_hex_lower_char(#[trigger] hex_lower(b)[i]) by {
            if i < h.len() {
                assert(hex_lower(b)[i] == h[i]);
            } else {
                assert(hex_lower(b)[i] == t[i - h.len()]);
            }
        }
    }
}

/// `hex::encode`: each byte as two lowercase hex digits, high nibble first
/// (`HEX_CHARS_LOWER` in the hex crate).
#[verifier::external_body]
pub(crate) fn hex_encode(data: &[u8]) -> (s: String)
    ensures
        s@ == hex_lower(data@),
{
    hex::encode(data)
}

/// Sixteen bytes from `rand::rng()` (`Rng::fill`). Nothing is stated of them: they are
/// random. `rand::rng()` panics only when the operating system's generator fails.
#[verifier::external_body]
pub(crate) fn random_bytes() -> [u8; 16] {
    let mut b = [0u8; 16];
    rand::rng().fill(&mut b);
    b
}

} // verus!

verus! {

/// A running SHA-256 computation: a `sha2::Sha256` in a private field, reached only
/// through `sha256_new`, `sha256_update` and `sha256_finalize`.
#[verifier::external_body]
pub struct Hasher {
    inner: sha2::Sha256,
}

/// Names the bytes a SHA-256 hasher has been fed so far.
pub uninterp spec fn hasher_input(h: Hasher) -> Seq<u8>;

/// Names the SHA-256 digest of a byte sequence.
pub uninterp spec fn sha256_of(data: Seq<u8>) -> Seq<u8>;

/// `Sha256::new()`: a hasher that has been fed nothing.
#[verifier::external_body]
pub(crate) fn sha256_new() -> (h: Hasher)
    ensures
        hasher_input(h) == Seq::<u8>::empty(),
{
    Hasher { inner: <sha2::Sha256 as sha2::Digest>::new() }
}

/// `Digest::update`: feeds `data` to the hasher.
#[verifier::external_body]
pub(crate) fn sha256_update(h: &mut Hasher, data: &[u8])
    ensures
        hasher_input(*final(h)) == hasher_input(*old(h)) + data@,
{
    sha2::Digest::update(&mut h.inner, data)
}

/// `Digest::finalize`: the SHA-256 digest of everything fed, 32 bytes.
#[verifier::external_body]
pub(crate) fn sha256_finalize(h: Hasher) -> (d: Vec<u8>)
    ensures
        d@ == sha256_of(hasher_input(h)),
        d@.len() == 32,
{
    sha2::Digest::finalize(h.inner).to_vec()
}

/// The lowercase hex SHA-256 of everything fed to `h`, as the download check compares it.
pub(crate) fn sha256_hex(h: Hasher) -> (s: String)
    ensures
        s@ == hex_lower(sha256_of(hasher_input(h))),
{
    let d = sha256_finalize(h);
    hex_encode(d.as_slice())
}

#[verifier::external_type_specification]
#[verifier::external_body]
pub struct ExDecodeError(base64::DecodeError);

/// The character of the standard base64 alphabet for the 6-bit value `n`:
/// `A`–`Z`, `a`–`z`, `0`–`9`, `+`, `/`.
pub open spec fn base64_digit(n: nat) -> char {
    if n < 26 {
        (n + 65) as char
    } else if n < 52 {
        (n - 26 + 97) as char
    } else if n < 62 {
        (n - 52 + 48) as char
    } else if n == 62 {
        '+'
    } else {
        '/'
    }
}

/// Standard base64 with padding (RFC 4648): each 3 bytes become 4 characters, high
/// bits first; a last group of 1 or 2 bytes is padded with `=` to 4 characters.
pub open spec fn base64_std(b: Seq<u8>) -> Seq<char>
    decreases b.len(),
{
    if b.len() == 0 {
        Seq::empty()
    } else if b.len() == 1 {
        seq![base64_digit(b[0] as nat / 4), base64_digit((b[0] as nat % 4) * 16), '=', '=']
    } else if b.len() == 2 {
        seq![
            base64_digit(b[0] as nat / 4),
            base64_digit((b[0] as nat % 4) * 16 + b[1] as nat / 16),
            base64_digit((b[1] as nat % 16) * 4),
            '=',
        ]
    } else {
        seq![
            base64_digit(b[0] as nat / 4),
            base64_digit((b[0] as nat % 4) * 16 + b[1] as nat / 16),
            base64_digit((b[1] as nat % 16) * 4 + b[2] as nat / 64),
            base64_digit(b[2] as nat % 64),
        ] + base64_std(b.skip(3))
    }
}

/// `base64::engine::general_purpose::STANDARD.encode`: the standard alphabet with
/// padding, exactly `base64_std`.
#[verifier::external_body]
pub(crate) fn base64_encode(data: &[u8]) -> (s: String)
    ensures
        s@ == base64_std(data@),
{
    base64::engine::general_purpose::STANDARD.encode(data)
}

/// `base64::engine::general_purpose::STANDARD.decode`, on the bytes of `text`. The
/// `STANDARD` engine requires canonical padding and rejects stray trailing bits, so it
/// succeeds exactly on the texts `base64_std` produces, giving back the bytes encoded.
#[verifier::external_body]
pub(crate) fn base64_decode(text: &str) -> (r: Result<Vec<u8>, base64::DecodeError>)
    ensures
        r is Ok <==> exists|b: Seq<u8>| #[trigger] base64_std(b) == text@,
        r matches Ok(v) ==> base64_std(v@) == text@,
{
    base64::engine::general_purpose::STANDARD.decode(text)
}

/// The text `base64::DecodeError` displays. Nothing is stated of it: it names the
/// offending offset and byte in the crate's own words.
#[verifier::external_body]
pub(crate) fn decode_error_text(e: &base64::DecodeError) -> String {
    e.to_string()
}

} // verus!

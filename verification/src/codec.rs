//! Digests, encodings and random secrets.

use crate::text::{ascii_alphanumeric, replace_char, replaced};
use vstd::prelude::*;
use vstd::utf8::encode_utf8;

verus! {

// ---------------------------------------------------------------------------
// Hexadecimal and percent encoding
// ---------------------------------------------------------------------------

/// The lower-case hexadecimal digit of a number below 16.
pub open spec fn hex_digit(n: int) -> char {
    if n < 10 {
        (48 + n) as char
    } else {
        (87 + n) as char
    }
}

/// The upper-case hexadecimal digit of a number below 16.
pub open spec fn upper_hex_digit(n: int) -> char {
    if n < 10 {
        (48 + n) as char
    } else {
        (55 + n) as char
    }
}

/// Bytes in hexadecimal: two lower-case digits each, the high one first.
pub open spec fn hex_text(bytes: Seq<u8>) -> Seq<char> {
    Seq::new(
        2 * bytes.len(),
        |i: int|
            if i % 2 == 0 {
                hex_digit(bytes[i / 2] as int / 16)
            } else {
                hex_digit(bytes[i / 2] as int % 16)
            },
    )
}

/// `hex::encode`, which writes each byte as two lower-case digits.
#[verifier::external_body]
fn encode_hex(bytes: &Vec<u8>) -> (r: String)
    ensures
        r@ == hex_text(bytes@),
{
    hex::encode(bytes)
}

/// Whether a byte stands for itself in a URL.
pub open spec fn unreserved(b: u8) -> bool {
    ||| 48 <= b <= 57
    ||| 65 <= b <= 90
    ||| 97 <= b <= 122
    ||| b == 45
    ||| b == 46
    ||| b == 95
    ||| b == 126
}

/// Bytes in percent encoding: letters, digits and `-._~` as they are, any other
/// byte as a percent sign and two upper-case digits.
pub open spec fn percent_text(bytes: Seq<u8>) -> Seq<char>
    decreases bytes.len(),
{
    if bytes.len() == 0 {
        Seq::empty()
    } else {
        let b = bytes.last();
        percent_text(bytes.drop_last()) + if unreserved(b) {
            seq![b as char]
        } else {
            seq!['%', upper_hex_digit(b as int / 16), upper_hex_digit(b as int % 16)]
        }
    }
}

/// `urlencoding::encode`, over the bytes of the text in UTF-8.
#[verifier::external_body]
fn encode_percent(text: &str) -> (r: String)
    ensures
        r@ == percent_text(encode_utf8(text@)),
{
    urlencoding::encode(text).into_owned()
}

/// A text as it stands in a URL.
pub fn url_encode(text: &str) -> (r: String)
    ensures
        r@ == percent_text(encode_utf8(text@)),
{
    encode_percent(text)
}

// ---------------------------------------------------------------------------
// Base64
// ---------------------------------------------------------------------------

pub open spec fn byte_or_zero(bytes: Seq<u8>, i: int) -> int {
    if 0 <= i < bytes.len() {
        bytes[i] as int
    } else {
        0
    }
}

/// The `i`th group of six bits, with zeros behind the last byte.
pub open spec fn sextet(bytes: Seq<u8>, i: int) -> int {
    let q = 3 * (i / 4);
    let a = byte_or_zero(bytes, q);
    let b = byte_or_zero(bytes, q + 1);
    let c = byte_or_zero(bytes, q + 2);
    if i % 4 == 0 {
        a / 4
    } else if i % 4 == 1 {
        (a % 4) * 16 + b / 16
    } else if i % 4 == 2 {
        (b % 16) * 4 + c / 64
    } else {
        c % 64
    }
}

/// The symbol of six bits; the last two differ in the alphabet for URLs.
pub open spec fn base64_symbol(n: int, for_url: bool) -> char {
    if n < 26 {
        (65 + n) as char
    } else if n < 52 {
        (71 + n) as char
    } else if n < 62 {
        (n - 4) as char
    } else if n == 62 {
        if for_url {
            '-'
        } else {
            '+'
        }
    } else {
        if for_url {
            '_'
        } else {
            '/'
        }
    }
}

/// Base64 in the alphabet for URLs, without padding.
pub open spec fn base64_url_text(bytes: Seq<u8>) -> Seq<char> {
    Seq::new(
        ((8 * bytes.len() + 5) / 6) as nat,
        |i: int| base64_symbol(sextet(bytes, i), true),
    )
}

/// Base64 in the standard alphabet, padded to a multiple of four.
pub open spec fn base64_text(bytes: Seq<u8>) -> Seq<char> {
    Seq::new(
        (4 * ((bytes.len() + 2) / 3)) as nat,
        |i: int|
            if i < (8 * bytes.len() + 5) / 6 {
                base64_symbol(sextet(bytes, i), false)
            } else {
                '='
            },
    )
}

/// `base64`'s `URL_SAFE_NO_PAD` engine.
#[verifier::external_body]
fn encode_base64_url(bytes: &Vec<u8>) -> (r: String)
    ensures
        r@ == base64_url_text(bytes@),
{
    base64::Engine::encode(&base64::engine::general_purpose::URL_SAFE_NO_PAD, bytes)
}

/// `base64`'s `STANDARD` engine.
#[verifier::external_body]
fn encode_base64(bytes: &Vec<u8>) -> (r: String)
    ensures
        r@ == base64_text(bytes@),
{
    base64::Engine::encode(&base64::engine::general_purpose::STANDARD, bytes)
}

/// Bytes in base64, in the alphabet for URLs, without padding.
pub fn base64_url(bytes: &Vec<u8>) -> (r: String)
    ensures
        r@ == base64_url_text(bytes@),
{
    encode_base64_url(bytes)
}

/// Bytes in padded base64.
pub fn base64_standard(bytes: &Vec<u8>) -> (r: String)
    ensures
        r@ == base64_text(bytes@),
{
    encode_base64(bytes)
}

// ---------------------------------------------------------------------------
// Digests
// ---------------------------------------------------------------------------

/// The SHA-256 digest of some bytes.
pub uninterp spec fn sha256(bytes: Seq<u8>) -> Seq<u8>;

/// `sha2::Sha256::digest`: 32 bytes that depend on the input alone.
#[verifier::external_body]
fn digest_sha256(bytes: &[u8]) -> (r: Vec<u8>)
    ensures
        r@ == sha256(bytes@),
        r@.len() == 32,
{
    <sha2::Sha256 as sha2::Digest>::digest(bytes).to_vec()
}

/// The SHA-256 digest of a text.
pub fn sha256_of(text: &str) -> (r: Vec<u8>)
    ensures
        r@ == sha256(encode_utf8(text@)),
        r@.len() == 32,
{
    digest_sha256(text.as_bytes())
}

/// What is stored of a token: its digest in hexadecimal.
pub open spec fn token_hash(token: Seq<char>) -> Seq<char> {
    hex_text(sha256(encode_utf8(token)))
}

/// Hashes a token. Only the hash is stored.
pub fn hash_token(token: &str) -> (r: String)
    ensures
        r@ == token_hash(token@),
        r@.len() == 64,
{
    let digest = sha256_of(token);
    encode_hex(&digest)
}

// ---------------------------------------------------------------------------
// Random secrets
// ---------------------------------------------------------------------------

/// `rand::thread_rng().fill_bytes`: 32 bytes, of which nothing more is promised.
#[verifier::external_body]
fn draw_bytes() -> (r: Vec<u8>)
    ensures
        r@.len() == 32,
{
    let mut bytes = [0u8; 32];
    rand::RngCore::fill_bytes(&mut rand::thread_rng(), &mut bytes);
    bytes.to_vec()
}

/// 32 random bytes.
pub fn random_bytes() -> (r: Vec<u8>)
    ensures
        r@.len() == 32,
{
    draw_bytes()
}

pub open spec fn is_lower_hex(c: char) -> bool {
    '0' <= c <= '9' || 'a' <= c <= 'f'
}

/// The shape of a UUID: 32 lower-case hexadecimal digits in five groups with
/// hyphens between them.
pub open spec fn uuid_shaped(s: Seq<char>) -> bool {
    &&& s.len() == 36
    &&& forall|i: int|
        0 <= i < 36 ==> if i == 8 || i == 13 || i == 18 || i == 23 {
            #[trigger] s[i] == '-'
        } else {
            is_lower_hex(s[i])
        }
}

/// `uuid::Uuid::new_v4` in its hyphenated form: random, so that only its shape
/// is promised.
#[verifier::external_body]
fn draw_uuid() -> (r: String)
    ensures
        uuid_shaped(r@),
{
    uuid::Uuid::new_v4().to_string()
}

/// A random UUID.
pub fn random_uuid() -> (r: String)
    ensures
        uuid_shaped(r@),
{
    draw_uuid()
}

/// The API key that a UUID makes: its digits behind `mr-`.
pub open spec fn key_of_uuid(uuid: Seq<char>) -> Seq<char> {
    "mr-"@ + replaced(uuid, '-', ""@)
}

pub fn make_key(uuid: &str) -> (r: String)
    ensures
        r@ == key_of_uuid(uuid@),
{
    "mr-".to_owned().concat(replace_char(uuid, '-', "").as_str())
}

/// Whether a text has the form of an API key: `mr-` and 32 hexadecimal digits.
pub open spec fn key_shaped(s: Seq<char>) -> bool {
    &&& s.len() == 35
    &&& s.take(3) == "mr-"@
    &&& forall|i: int| 3 <= i < 35 ==> is_lower_hex(#[trigger] s[i])
}

/// A new API key.
pub fn new_api_key() -> (r: String)
    ensures
        key_shaped(r@),
{
    let uuid = random_uuid();
    proof {
        keys_are_well_formed(uuid@);
    }
    make_key(uuid.as_str())
}

/// How many hyphens a UUID has before position `i`.
spec fn hyphens_before(i: int) -> int {
    (if i > 8 {
        1int
    } else {
        0int
    }) + (if i > 13 {
        1int
    } else {
        0int
    }) + (if i > 18 {
        1int
    } else {
        0int
    }) + (if i > 23 {
        1int
    } else {
        0int
    })
}

proof fn lemma_digits_kept(uuid: Seq<char>, n: int)
    requires
        uuid_shaped(uuid),
        0 <= n <= 36,
    ensures
        replaced(uuid.take(n), '-', ""@).len() == n - hyphens_before(n),
        forall|i: int|
            0 <= i < replaced(uuid.take(n), '-', ""@).len() ==> is_lower_hex(
                #[trigger] replaced(uuid.take(n), '-', ""@)[i],
            ),
    decreases n,
{
    reveal_strlit("");
    if n > 0 {
        lemma_digits_kept(uuid, n - 1);
        let t = uuid.take(n);
        assert(t.drop_last() =~= uuid.take(n - 1));
        assert(t.last() == uuid[n - 1]);
        let rest = replaced(t.drop_last(), '-', ""@);
        if uuid[n - 1] == '-' {
            assert(replaced(t, '-', ""@) =~= rest);
        }
    }
}

/// Every API key is `mr-` and 32 hexadecimal digits.
pub proof fn keys_are_well_formed(uuid: Seq<char>)
    requires
        uuid_shaped(uuid),
    ensures
        key_shaped(key_of_uuid(uuid)),
{
    lemma_digits_kept(uuid, 36);
    assert(uuid.take(36) =~= uuid);
    reveal_strlit("mr-");
    let digits = replaced(uuid, '-', ""@);
    let key = key_of_uuid(uuid);
    assert(key.take(3) =~= "mr-"@);
    assert forall|i: int| 3 <= i < 35 implies is_lower_hex(#[trigger] key[i]) by {
        assert(key[i] == digits[i - 3]);
    }
}

// ---------------------------------------------------------------------------
// Passwords
// ---------------------------------------------------------------------------

/// Whether `bcrypt` accepts a password against a stored hash; nothing where the
/// hash is malformed.
pub uninterp spec fn bcrypt_accepts(password: Seq<char>, hash: Seq<char>) -> Option<bool>;

/// `bcrypt::verify`: the result depends on the two texts alone.
#[verifier::external_body]
fn check_bcrypt(password: &str, hash: &str) -> (r: Option<bool>)
    ensures
        r == bcrypt_accepts(password@, hash@),
{
    bcrypt::verify(password, hash).ok()
}

/// `bcrypt::hash` at its default cost. The salt is random; what is promised is
/// that the hash accepts the password it was made from.
#[verifier::external_body]
fn make_bcrypt(password: &str) -> (r: Option<String>)
    ensures
        r matches Some(h) ==> bcrypt_accepts(password@, h@) == Some(true),
{
    bcrypt::hash(password, bcrypt::DEFAULT_COST).ok()
}

/// Whether a password fits a stored hash; nothing where the hash is malformed.
pub fn verify_password(password: &str, hash: &str) -> (r: Option<bool>)
    ensures
        r == bcrypt_accepts(password@, hash@),
{
    check_bcrypt(password, hash)
}

/// Hashes a password for storage.
pub fn hash_password(password: &str) -> (r: Option<String>)
    ensures
        r matches Some(h) ==> bcrypt_accepts(password@, h@) == Some(true),
{
    make_bcrypt(password)
}

/// The number that a hexadecimal digit stands for.
pub open spec fn hex_value(c: char) -> int {
    if '0' <= c <= '9' {
        c as int - 48
    } else {
        c as int - 87
    }
}

/// Bytes that were written in hexadecimal read back, two digits a byte.
pub proof fn hexadecimal_reads_back(bytes: Seq<u8>, i: int)
    requires
        0 <= i < bytes.len(),
    ensures
        hex_text(bytes).len() == 2 * bytes.len(),
        is_lower_hex(hex_text(bytes)[2 * i]) && is_lower_hex(hex_text(bytes)[2 * i + 1]),
        16 * hex_value(hex_text(bytes)[2 * i]) + hex_value(hex_text(bytes)[2 * i + 1]) == bytes[i],
{
    assert((2 * i) / 2 == i && (2 * i + 1) / 2 == i);
    assert((2 * i) % 2 == 0 && (2 * i + 1) % 2 == 1);
    let h = bytes[i] as int / 16;
    let l = bytes[i] as int % 16;
    assert(hex_text(bytes)[2 * i] == hex_digit(h));
    assert(hex_text(bytes)[2 * i + 1] == hex_digit(l));
    lemma_hex_digit(h);
    lemma_hex_digit(l);
}

proof fn lemma_hex_digit(n: int)
    requires
        0 <= n < 16,
    ensures
        hex_value(hex_digit(n)) == n,
        is_lower_hex(hex_digit(n)),
{
}

/// Encoding goes byte by byte: a letter, a digit and the four marks stay, every other
/// byte is written by its two digits, and a text is treated part by part.
pub proof fn percent_encoding_goes_by_byte(s: Seq<u8>, t: Seq<u8>, b: u8)
    ensures
        unreserved(b) <==> b < 128 && (ascii_alphanumeric(b as char) || b as char == '-' || b as char
            == '.' || b as char == '_' || b as char == '~'),
        unreserved(b) ==> percent_text(seq![b]) == seq![b as char],
        !unreserved(b) ==> percent_text(seq![b]) == seq![
            '%',
            upper_hex_digit(b as int / 16),
            upper_hex_digit(b as int % 16),
        ],
        upper_hex_digit(0) == '0' && upper_hex_digit(9) == '9' && upper_hex_digit(10) == 'A'
            && upper_hex_digit(15) == 'F',
        percent_text(s + t) == percent_text(s) + percent_text(t),
    decreases t.len(),
{
    assert(seq![b].drop_last() =~= Seq::<u8>::empty());
    assert(percent_text(seq![b].drop_last()) =~= Seq::<char>::empty());
    assert(unreserved(b) ==> percent_text(seq![b]) =~= seq![b as char]);
    assert(!unreserved(b) ==> percent_text(seq![b]) =~= seq![
        '%',
        upper_hex_digit(b as int / 16),
        upper_hex_digit(b as int % 16),
    ]);
    if t.len() == 0 {
        assert(s + t =~= s);
        assert(percent_text(s) + percent_text(t) =~= percent_text(s));
    } else {
        percent_encoding_goes_by_byte(s, t.drop_last(), b);
        assert((s + t).drop_last() =~= s + t.drop_last());
        assert(percent_text(s + t) =~= percent_text(s) + percent_text(t));
    }
}

/// The number that a symbol of base 64 stands for.
pub open spec fn symbol_value(c: char) -> int {
    if 'A' <= c <= 'Z' {
        c as int - 65
    } else if 'a' <= c <= 'z' {
        c as int - 71
    } else if '0' <= c <= '9' {
        c as int + 4
    } else if c == '+' || c == '-' {
        62
    } else {
        63
    }
}

/// Bytes that were written in base 64 read back, whichever alphabet was used: four
/// symbols hold three bytes.
pub proof fn base64_reads_back(bytes: Seq<u8>, i: int)
    requires
        0 <= i < bytes.len(),
    ensures
        base64_text(bytes).len() % 4 == 0,
        ({
            let q = 4 * (i / 3);
            let t = base64_text(bytes);
            let u = base64_url_text(bytes);
            &&& i % 3 == 0 ==> bytes[i] == 4 * symbol_value(t[q]) + symbol_value(t[q + 1]) / 16
            &&& i % 3 == 1 ==> bytes[i] == 16 * (symbol_value(t[q + 1]) % 16) + symbol_value(t[q + 2])
                / 4
            &&& i % 3 == 2 ==> bytes[i] == 64 * (symbol_value(t[q + 2]) % 4) + symbol_value(t[q + 3])
            &&& i % 3 == 0 ==> bytes[i] == 4 * symbol_value(u[q]) + symbol_value(u[q + 1]) / 16
            &&& i % 3 == 1 ==> bytes[i] == 16 * (symbol_value(u[q + 1]) % 16) + symbol_value(u[q + 2])
                / 4
            &&& i % 3 == 2 ==> bytes[i] == 64 * (symbol_value(u[q + 2]) % 4) + symbol_value(u[q + 3])
        }),
{
    let n = i / 3;
    let q = 4 * n;
    let r = i % 3;
    assert(i == 3 * n + r);
    assert forall|k: int| q <= k <= q + r + 1 implies 0 <= #[trigger] sextet(bytes, k) < 64 && k < (8
        * bytes.len() + 5) / 6 && k < 4 * ((bytes.len() + 2) / 3) by {
    }
    lemma_symbol(sextet(bytes, q));
    lemma_symbol(sextet(bytes, q + 1));
    if r >= 1 {
        lemma_symbol(sextet(bytes, q + 2));
    }
    if r >= 2 {
        lemma_symbol(sextet(bytes, q + 3));
    }
    assert(q / 4 == n && (q + 1) / 4 == n && (q + 2) / 4 == n && (q + 3) / 4 == n);
    assert(q % 4 == 0 && (q + 1) % 4 == 1 && (q + 2) % 4 == 2 && (q + 3) % 4 == 3);
}

proof fn lemma_symbol(n: int)
    requires
        0 <= n < 64,
    ensures
        symbol_value(base64_symbol(n, true)) == n,
        symbol_value(base64_symbol(n, false)) == n,
{
}

/// Base 64 is filled up with equals signs, except where it stands in an address, and
/// only there are the two last symbols others.
pub proof fn base64_is_filled_up(bytes: Seq<u8>, i: int)
    ensures
        base64_text(bytes).len() == 4 * ((bytes.len() + 2) / 3),
        base64_url_text(bytes).len() == (8 * bytes.len() + 5) / 6,
        base64_url_text(bytes).len() <= i < base64_text(bytes).len() ==> base64_text(bytes)[i] == '=',
        base64_symbol(62, true) == '-' && base64_symbol(63, true) == '_',
        base64_symbol(62, false) == '+' && base64_symbol(63, false) == '/',
{
}

} // verus!

//! Digests, MACs, encodings and fresh identifiers, from the crates that compute them.
use vstd::prelude::*;
use vstd::utf8::encode_utf8;
use base64::Engine;
use hmac::Mac;
use rand::RngCore;
use sha2::Digest;
use crate::text::{decimal, push_decimal};

verus! {

/// HMAC-SHA1 of `msg` under `key` (RFC 2104 over SHA-1).
pub uninterp spec fn hmac_sha1(key: Seq<u8>, msg: Seq<u8>) -> Seq<u8>;

/// SHA-256 digest of `data` (FIPS 180-4).
pub uninterp spec fn sha256(data: Seq<u8>) -> Seq<u8>;

/// Base64 of `data` with the standard alphabet and `=` padding (RFC 4648 §4).
pub uninterp spec fn base64_standard(data: Seq<u8>) -> Seq<char>;

/// Base64 of `data` with the standard alphabet and no padding.
pub uninterp spec fn base64_standard_no_pad(data: Seq<u8>) -> Seq<char>;

/// Base64 of `data` with the URL-safe alphabet (RFC 4648 §5) and no padding.
pub uninterp spec fn base64_url_safe_no_pad(data: Seq<u8>) -> Seq<char>;

/// Calls `hmac::Hmac::<sha1::Sha1>::new_from_slice`, `update` and `finalize`: the claim is
/// that the tag is HMAC-SHA1 of `msg` under `key` and is 20 bytes long. `new_from_slice`
/// returns `Ok` for a key of any length, so the `expect` never fires.
#[verifier::external_body]
fn hmac_sha1_tag(key: &[u8], msg: &[u8]) -> (r: Vec<u8>)
    ensures
        r@ == hmac_sha1(key@, msg@),
        r@.len() == 20,
{
    let mut mac = hmac::Hmac::<sha1::Sha1>::new_from_slice(key).expect("hmac accepts any key length");
    mac.update(msg);
    mac.finalize().into_bytes().to_vec()
}

/// Calls `sha2::Sha256::digest`: the claim is that the result is SHA-256 of `data`,
/// 32 bytes long.
#[verifier::external_body]
fn sha256_digest(data: &[u8]) -> (r: Vec<u8>)
    ensures
        r@ == sha256(data@),
        r@.len() == 32,
{
    sha2::Sha256::digest(data).to_vec()
}

/// Calls `base64::engine::general_purpose::STANDARD.encode`: the claim is that the result
/// is the padded standard Base64 of `data`, four characters for every started group of
/// three bytes.
#[verifier::external_body]
fn encode_standard(data: &[u8]) -> (r: String)
    requires
        data@.len() <= 0x1000_0000,
    ensures
        r@ == base64_standard(data@),
        r@.len() == 4 * ((data@.len() + 2) / 3),
{
    base64::engine::general_purpose::STANDARD.encode(data)
}

/// A character of the standard Base64 alphabet: `A-Z`, `a-z`, `0-9`, `+` and `/`.
pub open spec fn is_standard_b64_char(c: char) -> bool {
    ('A' <= c && c <= 'Z') || ('a' <= c && c <= 'z') || ('0' <= c && c <= '9') || c == '+' || c
        == '/'
}

/// Calls `base64::engine::general_purpose::STANDARD_NO_PAD.encode`: the claim is that the
/// result is the unpadded standard Base64 of `data`, `ceil(4n/3)` characters for `n` bytes,
/// all from the standard alphabet.
#[verifier::external_body]
fn encode_standard_no_pad(data: &[u8]) -> (r: String)
    requires
        data@.len() <= 0x1000_0000,
    ensures
        r@ == base64_standard_no_pad(data@),
        r@.len() == (4 * data@.len() + 2) / 3,
        forall|i: int| 0 <= i < r@.len() ==> is_standard_b64_char(#[trigger] r@[i]),
{
    base64::engine::general_purpose::STANDARD_NO_PAD.encode(data)
}

/// A character of the URL-safe Base64 alphabet: `A-Z`, `a-z`, `0-9`, `-` and `_`.
pub open spec fn is_url_safe_char(c: char) -> bool {
    ('A' <= c && c <= 'Z') || ('a' <= c && c <= 'z') || ('0' <= c && c <= '9') || c == '-' || c
        == '_'
}

/// Calls `base64::engine::general_purpose::URL_SAFE_NO_PAD.encode`: the claim is that the
/// result is the unpadded URL-safe Base64 of `data`, `ceil(4n/3)` characters for `n`
/// bytes, all from the URL-safe alphabet.
#[verifier::external_body]
fn encode_url_safe_no_pad(data: &[u8]) -> (r: String)
    requires
        data@.len() <= 0x1000_0000,
    ensures
        r@ == base64_url_safe_no_pad(data@),
        r@.len() == (4 * data@.len() + 2) / 3,
        forall|i: int| 0 <= i < r@.len() ==> is_url_safe_char(#[trigger] r@[i]),
{
    base64::engine::general_purpose::URL_SAFE_NO_PAD.encode(data)
}

/// Calls `rand::thread_rng().fill_bytes` on a 16-byte buffer: the claim is only the
/// length; the bytes are random. (The thread's generator is seeded from the operating
/// system, and panics only if that source fails.)
#[verifier::external_body]
pub(crate) fn random_16_bytes() -> (r: Vec<u8>)
    ensures
        r@.len() == 16,
{
    let mut bytes = [0u8; 16];
    rand::thread_rng().fill_bytes(&mut bytes);
    bytes.to_vec()
}

pub open spec fn is_lower_hex(c: char) -> bool {
    ('0' <= c && c <= '9') || ('a' <= c && c <= 'f')
}

/// Calls `uuid::Uuid::new_v4` and formats it with `simple()`: the claim is that the text
/// is 32 lowercase hexadecimal digits; which digits is random, and nothing is claimed of
/// them. (The random source is the operating system's, which panics only if it fails.)
#[verifier::external_body]
fn uuid_v4_simple() -> (r: String)
    ensures
        r@.len() == 32,
        forall|i: int| 0 <= i < r@.len() ==> is_lower_hex(#[trigger] r@[i]),
{
    uuid::Uuid::new_v4().simple().to_string()
}

/// The TURN username for credentials that expire at `expiry`: `"<expiry>:se"`.
pub open spec fn turn_username(expiry: nat) -> Seq<char> {
    decimal(expiry) + seq![':', 's', 'e']
}

/// The coturn time-limited credential for `username` under `secret`:
/// `base64(HMAC_SHA1(secret, username))`.
pub open spec fn turn_credential(secret: Seq<char>, username: Seq<char>) -> Seq<char> {
    base64_standard(hmac_sha1(encode_utf8(secret), encode_utf8(username)))
}

/// The username and credential of the coturn time-limited scheme for credentials that
/// expire at `expiry` (seconds since the Unix epoch).
pub fn turn_credentials_until(secret: &str, expiry: u64) -> (r: (String, String))
    ensures
        r.0@ == turn_username(expiry as nat),
        r.1@ == turn_credential(secret@, r.0@),
        r.1@.len() == 28,
{
    let mut username = String::new();
    push_decimal(&mut username, expiry);
    username.push(':');
    username.push('s');
    username.push('e');
    assert(username@ =~= turn_username(expiry as nat));
    let tag = hmac_sha1_tag(secret.as_bytes(), username.as_str().as_bytes());
    let credential = encode_standard(tag.as_slice());
    (username, credential)
}

/// The salted hash under which a client's address reaches a host:
/// `"sha256:" + base64_no_pad(SHA256(salt + ":" + ip))`.
pub open spec fn ip_hash_spec(salt: Seq<char>, ip: Seq<char>) -> Seq<char> {
    seq!['s', 'h', 'a', '2', '5', '6', ':'] + base64_standard_no_pad(
        sha256(encode_utf8(salt) + seq![58u8] + encode_utf8(ip)),
    )
}

/// The salted hash of a client address (`ip`) that is forwarded to hosts in place of it.
pub fn ip_hash(salt: &str, ip: &str) -> (r: String)
    ensures
        r@ == ip_hash_spec(salt@, ip@),
        r@.len() == 50,
{
    let mut data = vstd::slice::slice_to_vec(salt.as_bytes());
    let mut colon: Vec<u8> = Vec::new();
    colon.push(58u8);
    data.append(&mut colon);
    let mut ip_bytes = vstd::slice::slice_to_vec(ip.as_bytes());
    data.append(&mut ip_bytes);
    let digest = sha256_digest(data.as_slice());
    let encoded = encode_standard_no_pad(digest.as_slice());
    let mut r = String::new();
    r.push('s');
    r.push('h');
    r.push('a');
    r.push('2');
    r.push('5');
    r.push('6');
    r.push(':');
    r.append(encoded.as_str());
    assert(r@ =~= ip_hash_spec(salt@, ip@));
    r
}

/// The Base64 (standard alphabet, no padding) of a process salt of 16 random bytes:
/// 22 characters of the standard alphabet.
pub open spec fn is_encoded_salt(s: Seq<char>) -> bool {
    &&& exists|b: Seq<u8>| b.len() == 16 && s == base64_standard_no_pad(b)
    &&& s.len() == 22
    &&& forall|i: int| 0 <= i < s.len() ==> is_standard_b64_char(#[trigger] s[i])
}

/// A fresh salt for hashing client addresses: 16 random bytes in unpadded standard Base64.
pub fn fresh_ip_salt() -> (r: String)
    ensures
        is_encoded_salt(r@),
{
    let bytes = random_16_bytes();
    encode_standard_no_pad(bytes.as_slice())
}

/// A client id that the relay mints: `"c_"` followed by the unpadded URL-safe Base64 of
/// 16 random bytes.
pub open spec fn is_minted_cid(s: Seq<char>) -> bool {
    exists|b: Seq<u8>| b.len() == 16 && s == seq!['c', '_'] + base64_url_safe_no_pad(b)
}

/// Mints a new client id for the `se_cid` cookie.
pub fn mint_cid() -> (r: String)
    ensures
        is_minted_cid(r@),
        r@.len() == 24,
        forall|i: int| 0 <= i < r@.len() ==> is_url_safe_char(#[trigger] r@[i]),
{
    let bytes = random_16_bytes();
    let encoded = encode_url_safe_no_pad(bytes.as_slice());
    let mut r = String::new();
    r.push('c');
    r.push('_');
    r.append(encoded.as_str());
    assert(r@ =~= seq!['c', '_'] + base64_url_safe_no_pad(bytes@));
    assert forall|i: int| 0 <= i < r@.len() implies is_url_safe_char(#[trigger] r@[i]) by {
        if i >= 2 {
            assert(r@[i] == encoded@[i - 2]);
        }
    }
    r
}

/// An id that the relay mints: the prefix followed by 32 lowercase hexadecimal digits.
pub open spec fn is_minted_id(prefix: Seq<char>, s: Seq<char>) -> bool {
    &&& s.len() == prefix.len() + 32
    &&& s.take(prefix.len() as int) == prefix
    &&& forall|i: int| prefix.len() <= i < s.len() ==> is_lower_hex(#[trigger] s[i])
}

/// Mints an id: `prefix` followed by a random UUID in simple form.
pub fn mint_id(prefix: &str) -> (r: String)
    ensures
        is_minted_id(prefix@, r@),
{
    let uuid = uuid_v4_simple();
    let mut r = prefix.to_owned();
    r.append(uuid.as_str());
    assert(r@.take(prefix@.len() as int) =~= prefix@);
    assert forall|i: int| prefix@.len() <= i < r@.len() implies is_lower_hex(#[trigger] r@[i]) by {
        assert(r@[i] == uuid@[i - prefix@.len()]);
    }
    r
}

} // verus!

verus! {

/// TURN credentials that expire `ttl` seconds from now by the wall clock; `None` when
/// that expiry does not fit in 64 bits.
pub fn turn_credentials(secret: &str, ttl: u64) -> (r: Option<(String, String)>)
    ensures
        exists|now: u64| #[trigger] turn_credentials_answer(secret@, ttl, now, r),
{
    let now = crate::clock::now_unix();
    let r = if now > u64::MAX - ttl {
        None
    } else {
        Some(turn_credentials_until(secret, now + ttl))
    };
    assert(turn_credentials_answer(secret@, ttl, now, r));
    r
}

/// `r` is what `turn_credentials` gives at wall-clock time `now`.
pub open spec fn turn_credentials_answer(
    secret: Seq<char>,
    ttl: u64,
    now: u64,
    r: Option<(String, String)>,
) -> bool {
    match r {
        Some(c) => now + ttl <= u64::MAX && c.0@ == turn_username((now + ttl) as nat) && c.1@
            == turn_credential(secret, c.0@),
        None => now + ttl > u64::MAX,
    }
}

} // verus!

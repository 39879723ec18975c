//! Authentication of IPC clients: HMAC-SHA256 challenge-response over a
//! shared secret, with a freshness window on timestamps.

use vstd::prelude::*;
use vstd::utf8::encode_utf8;
use hmac::Mac;
use rand::{Rng, RngCore};

use crate::ipc::AuthToken;

verus! {

broadcast use vstd::string::group_string_axioms;

/// A point in time as the operating system reports it.
#[verifier::external_type_specification]
#[verifier::external_body]
pub struct ExSystemTime(std::time::SystemTime);

/// The error of a time that lies before the point it is measured from.
#[verifier::external_type_specification]
#[verifier::external_body]
pub struct ExSystemTimeError(std::time::SystemTimeError);

/// The lowercase hexadecimal digit for `n < 16`.
pub open spec fn hex_digit(n: nat) -> char {
    if n < 10 {
        ((48 + n) as u8) as char
    } else {
        ((87 + n) as u8) as char
    }
}

/// Lowercase hexadecimal rendering: two digits per byte, high nibble first.
pub open spec fn hex_of(bytes: Seq<u8>) -> Seq<char>
    decreases bytes.len(),
{
    if bytes.len() == 0 {
        Seq::empty()
    } else {
        hex_of(bytes.drop_last()).push(hex_digit((bytes.last() / 16) as nat)).push(
            hex_digit((bytes.last() % 16) as nat),
        )
    }
}

/// The little-endian bytes of a `u32`.
pub open spec fn le_bytes(x: u32) -> Seq<u8> {
    seq![(x % 256) as u8, ((x / 256) % 256) as u8, ((x / 65536) % 256) as u8, (x / 16777216) as u8]
}

/// What HMAC-SHA256 computes for a key and a message.
pub uninterp spec fn spec_hmac_sha256(key: Seq<u8>, message: Seq<u8>) -> Seq<u8>;

/// The signature a client must present: the HMAC-SHA256 under the secret of
/// the nonce followed by the daemon PID (little-endian), in lowercase hex.
pub open spec fn expected_signature(secret: Seq<char>, nonce: Seq<char>, daemon_pid: u32) -> Seq<char> {
    hex_of(spec_hmac_sha256(encode_utf8(secret), encode_utf8(nonce) + le_bytes(daemon_pid)))
}

/// The largest accepted distance, in seconds, between a timestamp and now.
pub const MAX_CLOCK_SKEW_SECS: u64 = 30;

/// `timestamp` lies within [`MAX_CLOCK_SKEW_SECS`] of `now`.
pub open spec fn is_fresh(now: u64, timestamp: u64) -> bool {
    -30 <= now - timestamp <= 30
}

/// Encodes bytes as lowercase hexadecimal with `hex::encode`.
#[verifier::external_body]
pub(crate) fn hex_encode(data: &[u8]) -> (r: String)
    ensures
        r@ == hex_of(data@),
{
    hex::encode(data)
}

/// HMAC-SHA256 of `message` under `key`, with the `hmac` and `sha2` crates
/// (`Hmac::<Sha256>::new_from_slice`, which accepts keys of any length,
/// then `update` and `finalize`). Claimed: the result is the named MAC of
/// the key and message, 32 bytes long (SHA-256's output size).
#[verifier::external_body]
fn hmac_sha256(key: &[u8], message: &[u8]) -> (r: Vec<u8>)
    ensures
        r@ == spec_hmac_sha256(key@, message@),
        r@.len() == 32,
{
    let mut mac = <hmac::Hmac<sha2::Sha256> as hmac::Mac>::new_from_slice(key).unwrap();
    mac.update(message);
    mac.finalize().into_bytes().to_vec()
}

/// 32 bytes from the thread-local random generator (`RngCore::fill_bytes`).
#[verifier::external_body]
fn random_bytes_filled() -> (r: Vec<u8>)
    ensures
        r@.len() == 32,
{
    let mut bytes = [0u8; 32];
    rand::thread_rng().fill_bytes(&mut bytes);
    bytes.to_vec()
}

/// 32 bytes from the thread-local random generator (`Rng::gen`).
#[verifier::external_body]
fn random_bytes_generated() -> (r: Vec<u8>)
    ensures
        r@.len() == 32,
{
    let bytes: [u8; 32] = rand::thread_rng().gen();
    bytes.to_vec()
}

/// The current time (`SystemTime::now`).
#[verifier::external_body]
pub(crate) fn system_now() -> (r: std::time::SystemTime) {
    std::time::SystemTime::now()
}

/// The time from the Unix epoch to `t` (`SystemTime::duration_since`), or
/// the error when `t` lies before the epoch. Nothing is claimed of either.
#[verifier::external_body]
fn since_epoch(t: &std::time::SystemTime) -> (r: Result<std::time::Duration, std::time::SystemTimeError>) {
    t.duration_since(std::time::UNIX_EPOCH)
}

/// The whole seconds of a duration (`Duration::as_secs`).
#[verifier::external_body]
fn whole_secs(d: &std::time::Duration) -> (r: u64) {
    d.as_secs()
}

/// The text of a time error (`SystemTimeError::to_string`).
#[verifier::external_body]
fn time_error_text(e: &std::time::SystemTimeError) -> (r: String) {
    e.to_string()
}

/// Whole seconds from the Unix epoch to `t`, or the error's text when `t`
/// lies before the epoch.
pub(crate) fn secs_since_epoch(t: &std::time::SystemTime) -> (r: Result<u64, String>) {
    match since_epoch(t) {
        Ok(d) => Ok(whole_secs(&d)),
        Err(e) => Err(time_error_text(&e)),
    }
}

/// The current Unix time in seconds.
pub fn unix_now() -> (r: Result<u64, String>) {
    let t = system_now();
    secs_since_epoch(&t)
}

/// The UTF-8 bytes of a string.
pub fn utf8_bytes(s: &str) -> (r: Vec<u8>)
    ensures
        r@ == encode_utf8(s@),
{
    let b = s.as_bytes();
    let mut v: Vec<u8> = Vec::new();
    let mut i: usize = 0;
    while i < b.len()
        invariant
            i <= b@.len(),
            b@ == encode_utf8(s@),
            v@ == b@.take(i as int),
        decreases b@.len() - i,
    {
        v.push(b[i]);
        assert(b@.take(i as int).push(b@[i as int]) =~= b@.take(i + 1));
        i = i + 1;
    }
    assert(b@.take(b@.len() as int) =~= b@);
    v
}

/// Appends the little-endian bytes of `x` to `v`.
pub fn push_le_bytes(v: &mut Vec<u8>, x: u32)
    ensures
        final(v)@ == old(v)@ + le_bytes(x),
{
    v.push((x % 256) as u8);
    v.push(((x / 256) % 256) as u8);
    v.push(((x / 65536) % 256) as u8);
    v.push((x / 16777216) as u8);
    assert(v@ =~= old(v)@ + le_bytes(x));
}

/// HMAC-SHA256(secret, nonce + daemon_pid little-endian) in lowercase hex.
pub fn compute_hmac(secret: &str, nonce: &str, daemon_pid: u32) -> (r: String)
    ensures
        r@ == expected_signature(secret@, nonce@, daemon_pid),
{
    let key = utf8_bytes(secret);
    let mut message = utf8_bytes(nonce);
    push_le_bytes(&mut message, daemon_pid);
    let mac = hmac_sha256(key.as_slice(), message.as_slice());
    hex_encode(mac.as_slice())
}

/// A fresh random 32-byte nonce in lowercase hex.
pub fn generate_nonce() -> (r: String)
    ensures
        exists|b: Seq<u8>| b.len() == 32 && r@ == hex_of(b),
{
    let bytes = random_bytes_generated();
    hex_encode(bytes.as_slice())
}

/// A fresh random 32-byte shared secret in lowercase hex.
pub fn generate_secret() -> (r: String)
    ensures
        exists|b: Seq<u8>| b.len() == 32 && r@ == hex_of(b),
{
    let bytes = random_bytes_filled();
    hex_encode(bytes.as_slice())
}

/// Whether `timestamp` lies within [`MAX_CLOCK_SKEW_SECS`] of `now`.
pub fn timestamp_is_fresh(now: u64, timestamp: u64) -> (r: bool)
    ensures
        r == is_fresh(now, timestamp),
{
    if now >= timestamp {
        now - timestamp <= MAX_CLOCK_SKEW_SECS
    } else {
        timestamp - now <= MAX_CLOCK_SKEW_SECS
    }
}

/// What the daemon decides on an auth token, given whether its signature
/// matches and the clock reading: a wrong signature is rejected first
/// (`"invalid_signature"`); then a failed clock reading (`"unknown"`), then a
/// stale timestamp (`"expired"`).
pub open spec fn auth_decision(signature_ok: bool, now: Result<u64, String>, timestamp: u64) -> Result<(), Seq<char>> {
    if !signature_ok {
        Err("invalid_signature"@)
    } else {
        match now {
            Err(_) => Err("unknown"@),
            Ok(t) => if is_fresh(t, timestamp) {
                Ok(())
            } else {
                Err("expired"@)
            },
        }
    }
}

/// What the daemon decides on a token with the given nonce and signature,
/// for a clock reading `now`.
pub open spec fn token_decision(
    secret: Seq<char>,
    nonce: Seq<char>,
    signature: Seq<char>,
    daemon_pid: u32,
    now: Result<u64, String>,
    timestamp: u64,
) -> Result<(), Seq<char>> {
    auth_decision(expected_signature(secret, nonce, daemon_pid) == signature, now, timestamp)
}

/// `r` is the executable counterpart of the decision `d`.
pub open spec fn decision_is(r: Result<(), &'static str>, d: Result<(), Seq<char>>) -> bool {
    match r {
        Ok(()) => d is Ok,
        Err(s) => d == Err::<(), Seq<char>>(s@),
    }
}

/// Decides on an auth token from the signature check and a clock reading.
pub fn decide_auth(signature_ok: bool, now: Result<u64, String>, timestamp: u64) -> (r: Result<(), &'static str>)
    ensures
        decision_is(r, auth_decision(signature_ok, now, timestamp)),
{
    if !signature_ok {
        return Err("invalid_signature");
    }
    match now {
        Err(_) => Err("unknown"),
        Ok(t) => if timestamp_is_fresh(t, timestamp) {
            Ok(())
        } else {
            Err("expired")
        },
    }
}

/// Verifies a client's auth token against the shared secret: the signature
/// must be the expected HMAC, and `timestamp` must lie within
/// [`MAX_CLOCK_SKEW_SECS`] of the current time.
pub fn verify_auth_token(secret: &str, token: &AuthToken, daemon_pid: u32, timestamp: u64) -> (r: Result<(), &'static str>)
    ensures
        exists|now: Result<u64, String>|
            decision_is(r, #[trigger] token_decision(secret@, token.nonce@, token.signature@, daemon_pid, now, timestamp)),
{
    let expected = compute_hmac(secret, token.nonce.as_str(), daemon_pid);
    let signature_ok = expected == token.signature;
    let now = unix_now();
    let r = decide_auth(signature_ok, now, timestamp);
    assert(decision_is(r, token_decision(secret@, token.nonce@, token.signature@, daemon_pid, now, timestamp)));
    r
}

} // verus!

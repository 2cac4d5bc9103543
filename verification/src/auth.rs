//! One-time codes that change every thirty seconds.

use crate::bytes::{big_endian, from_big_endian, push_big_endian};
use crate::number::{decimal, decimal_is_digits, decimal_is_short, decimal_padded, ten_to, zero_padded};
use crate::text::{chars_of, is_white, string_of, text_result, white};
use hmac::{KeyInit, Mac};
use vstd::prelude::*;
use vstd::utf8::encode_utf8;

verus! {

/// What unpadded base32 without regard to case decodes to, where it is valid:
/// the result of `data_encoding::BASE32_NOPAD_NOCASE.decode`.
pub uninterp spec fn base32_decoded(text: Seq<u8>) -> Option<Seq<u8>>;

/// The HMAC-SHA1 of a message under a key, as `hmac::Hmac<sha1::Sha1>` computes it.
pub uninterp spec fn hmac_sha1(key: Seq<u8>, message: Seq<u8>) -> Seq<u8>;

/// The bytes in an optional vector.
pub open spec fn opt_bytes(v: Option<Vec<u8>>) -> Option<Seq<u8>> {
    match v {
        Some(b) => Some(b@),
        None => None,
    }
}

/// Calls `BASE32_NOPAD_NOCASE.decode` of the data-encoding crate. Claimed is only
/// that the outcome depends on the bytes alone.
#[verifier::external_body]
fn decode_base32(text: &[u8]) -> (r: Option<Vec<u8>>)
    ensures
        opt_bytes(r) == base32_decoded(text@),
{
    data_encoding::BASE32_NOPAD_NOCASE.decode(text).ok()
}

/// Computes `Hmac<Sha1>` of the hmac and sha1 crates in one go. HMAC takes keys of
/// any length, so there is always a result; it has twenty bytes and depends on the
/// key and the message alone.
#[verifier::external_body]
fn compute_hmac_sha1(key: &[u8], message: &[u8]) -> (r: Option<Vec<u8>>)
    ensures
        opt_bytes(r) == Some(hmac_sha1(key@, message@)),
        opt_bytes(r)->0.len() == 20,
{
    let mut mac = hmac::Hmac::<sha1::Sha1>::new_from_slice(key).ok()?;
    mac.update(message);
    Some(mac.finalize().into_bytes().to_vec())
}

/// Calls `SystemTime::elapsed` on the epoch: the seconds since then. Nothing is
/// claimed of the time.
#[verifier::external_body]
fn seconds_since_epoch() -> (r: Option<u64>) {
    std::time::UNIX_EPOCH.elapsed().ok().map(|d| d.as_secs())
}

/// The seconds since the epoch by the machine's clock; none where the clock stands before
/// the epoch. Nothing is claimed of the time.
pub fn unix_now() -> Option<u64> {
    seconds_since_epoch()
}

/// Whether a character of a secret counts.
pub open spec fn secret_symbol(c: char) -> bool {
    !white(c) && c != '-' && c != '='
}

/// A secret without the characters that do not count.
pub open spec fn secret_symbols(s: Seq<char>) -> Seq<char>
    decreases s.len(),
{
    if s.len() == 0 {
        Seq::empty()
    } else if secret_symbol(s.last()) {
        secret_symbols(s.drop_last()).push(s.last())
    } else {
        secret_symbols(s.drop_last())
    }
}

fn keep_symbols(secret: &str) -> (r: String)
    ensures
        r@ == secret_symbols(secret@),
{
    let chars: Vec<char> = chars_of(secret);
    let mut out: Vec<char> = Vec::new();
    let mut i: usize = 0;
    assert(chars@.take(0) =~= Seq::<char>::empty());
    while i < chars.len()
        invariant
            i <= chars@.len(),
            out@ == secret_symbols(chars@.take(i as int)),
        decreases chars@.len() - i,
    {
        assert(chars@.take(i + 1).drop_last() =~= chars@.take(i as int));
        assert(chars@.take(i + 1).last() == chars@[i as int]);
        let c: char = chars[i];
        if !is_white(c) && c != '-' && c != '=' {
            out.push(c);
        }
        i = i + 1;
    }
    assert(chars@.take(i as int) =~= chars@);
    string_of(out.as_slice())
}

/// The key that a secret stands for.
pub open spec fn secret_key(secret: Seq<char>) -> Option<Seq<u8>> {
    base32_decoded(encode_utf8(secret_symbols(secret)))
}

/// The number that a digest of twenty bytes is cut down to: four bytes from the
/// place that its last byte names, without the top bit, and of that the last six
/// decimal digits.
pub open spec fn code_number(digest: Seq<u8>) -> nat {
    let k = digest[19] as int % 16;
    (((digest[k] as nat % 128) * 0x100_0000 + digest[k + 1] as nat * 0x1_0000 + digest[k + 2] as nat
        * 0x100 + digest[k + 3] as nat) % 1_000_000) as nat
}

/// The one-time code of a key at a time.
pub open spec fn totp_code(key: Seq<u8>, unix_seconds: u64) -> Seq<char> {
    zero_padded(
        decimal(code_number(hmac_sha1(key, big_endian((unix_seconds / 30) as nat, 8)))),
        6,
    )
}

/// The number that a digest is cut down to.
pub fn code_of_digest(digest: &[u8]) -> (r: u64)
    requires
        digest@.len() == 20,
    ensures
        r == code_number(digest@),
        r < 1_000_000,
{
    let k: usize = (digest[19] % 16) as usize;
    ((digest[k] % 128) as u64 * 0x100_0000 + digest[k + 1] as u64 * 0x1_0000 + digest[k + 2] as u64
        * 0x100 + digest[k + 3] as u64) % 1_000_000
}

/// The one-time code of a secret at a time, or why there is none.
pub open spec fn totp_result(secret: Seq<char>, unix_seconds: u64) -> Result<
    Seq<char>,
    Seq<char>,
> {
    match secret_key(secret) {
        None => Err("2FA 密钥不是有效的 Base32 格式"@),
        Some(key) => Ok(totp_code(key, unix_seconds)),
    }
}

fn key_of_secret(secret: &str) -> (r: Option<Vec<u8>>)
    ensures
        opt_bytes(r) == secret_key(secret@),
{
    let symbols: String = keep_symbols(secret);
    decode_base32(symbols.as_str().as_bytes())
}

fn code_of_key(key: &[u8], unix_seconds: u64) -> (r: Result<String, String>)
    ensures
        text_result(r) == Ok::<Seq<char>, Seq<char>>(totp_code(key@, unix_seconds)),
{
    let mut counter: Vec<u8> = Vec::new();
    push_big_endian(&mut counter, unix_seconds / 30, 8);
    assert(counter@ =~= big_endian((unix_seconds / 30) as nat, 8));
    match compute_hmac_sha1(key, counter.as_slice()) {
        Some(digest) => Ok(decimal_padded(code_of_digest(digest.as_slice()), 6)),
        None => Err("无法使用当前 2FA 密钥".to_string()),
    }
}

/// The one-time code of a secret at a time.
pub fn totp_at(secret: &str, unix_seconds: u64) -> (r: Result<String, String>)
    ensures
        text_result(r) == totp_result(secret@, unix_seconds),
{
    match key_of_secret(secret) {
        None => Err("2FA 密钥不是有效的 Base32 格式".to_string()),
        Some(key) => code_of_key(key.as_slice(), unix_seconds),
    }
}

/// The one-time code of a secret at a moment, or why there is none; no moment stands for a
/// clock that cannot be read.
pub open spec fn totp_by_clock(secret: Seq<char>, now: Option<u64>) -> Result<
    Seq<char>,
    Seq<char>,
> {
    match (secret_key(secret), now) {
        (None, _) => Err("2FA 密钥不是有效的 Base32 格式"@),
        (Some(_), None) => Err("系统时间无效，无法生成 2FA 验证码"@),
        (Some(key), Some(t)) => Ok(totp_code(key, t)),
    }
}

/// The one-time code of a secret now: at the moment that `unix_now` gives, which is left
/// open.
pub fn current_totp(secret: &str) -> (r: Result<String, String>)
    ensures
        exists|now: Option<u64>|
            call_ensures(unix_now, (), now) && text_result(r) == #[trigger] totp_by_clock(
                secret@,
                now,
            ),
{
    let now: Option<u64> = unix_now();
    let r: Result<String, String> = match key_of_secret(secret) {
        None => Err("2FA 密钥不是有效的 Base32 格式".to_string()),
        Some(key) => match now {
            None => Err("系统时间无效，无法生成 2FA 验证码".to_string()),
            Some(t) => code_of_key(key.as_slice(), t),
        },
    };
    assert(text_result(r) == totp_by_clock(secret@, now));
    r
}

/// A code of a digest has exactly six characters, all of them decimal digits.
pub proof fn code_has_six_digits(key: Seq<u8>, unix_seconds: u64)
    ensures
        totp_code(key, unix_seconds).len() == 6,
        forall|i: int|
            0 <= i < 6 ==> '0' <= #[trigger] totp_code(key, unix_seconds)[i] <= '9',
{
    let n = code_number(hmac_sha1(key, big_endian((unix_seconds / 30) as nat, 8)));
    reveal_with_fuel(ten_to, 7);
    decimal_is_short(n, 6);
    decimal_is_digits(n);
}

/// The code stays the same within a window of thirty seconds.
pub proof fn code_is_stable_within_window(key: Seq<u8>, t: u64, u: u64)
    requires
        t / 30 == u / 30,
    ensures
        totp_code(key, t) == totp_code(key, u),
{
}

/// The code of a digest is the number in the four bytes that its last half-byte points to,
/// without the highest bit, in its last six digits.
pub proof fn code_is_cut_out_of_the_digest(digest: Seq<u8>, k: int)
    requires
        digest.len() == 20,
        k == digest[19] % 16,
    ensures
        code_number(digest) == from_big_endian(digest.subrange(k, k + 4)) % 0x8000_0000 % 1_000_000,
{
    let b = digest.subrange(k, k + 4);
    reveal_with_fuel(from_big_endian, 5);
    assert(b.drop_last() =~= digest.subrange(k, k + 3));
    assert(b.drop_last().drop_last() =~= digest.subrange(k, k + 2));
    assert(b.drop_last().drop_last().drop_last() =~= digest.subrange(k, k + 1));
    assert(digest.subrange(k, k + 1).drop_last() =~= Seq::<u8>::empty());
    let a0 = digest[k] as int;
    let a1 = digest[k + 1] as int;
    let a2 = digest[k + 2] as int;
    let a3 = digest[k + 3] as int;
    let n = from_big_endian(b) as int;
    assert(n == ((a0 * 256 + a1) * 256 + a2) * 256 + a3);
    let low = (a0 % 128) * 0x100_0000 + a1 * 0x1_0000 + a2 * 0x100 + a3;
    assert(n == (a0 / 128) * 0x8000_0000 + low) by {
        assert(a0 == 128 * (a0 / 128) + a0 % 128);
    }
    assert(0 <= low < 0x8000_0000);
    assert(n % 0x8000_0000 == low);
}

/// The white space, the hyphens and the padding in a secret make no difference.
pub proof fn secret_may_be_written_in_groups(a: Seq<char>, c: char, b: Seq<char>)
    requires
        white(c) || c == '-' || c == '=',
    ensures
        secret_key(a + seq![c] + b) == secret_key(a + b),
{
    lemma_symbols(a, b);
    lemma_symbols(a + seq![c], b);
    assert((a + seq![c]).drop_last() =~= a);
    assert((a + seq![c]).last() == c);
}

proof fn lemma_symbols(a: Seq<char>, b: Seq<char>)
    ensures
        secret_symbols(a + b) == secret_symbols(a) + secret_symbols(b),
    decreases b.len(),
{
    if b.len() == 0 {
        assert(a + b =~= a);
        assert(secret_symbols(a) + secret_symbols(b) =~= secret_symbols(a));
    } else {
        lemma_symbols(a, b.drop_last());
        assert((a + b).drop_last() =~= a + b.drop_last());
        assert((a + b).last() == b.last());
        assert(secret_symbols(a + b) =~= secret_symbols(a) + secret_symbols(b));
    }
}

/// A secret that is written without any of these is taken as it is.
pub proof fn bare_secret_is_taken_as_it_is(s: Seq<char>)
    requires
        forall|i: int| 0 <= i < s.len() ==> !white(#[trigger] s[i]) && s[i] != '-' && s[i] != '=',
    ensures
        secret_key(s) == base32_decoded(encode_utf8(s)),
{
    lemma_bare_symbols(s);
}

proof fn lemma_bare_symbols(s: Seq<char>)
    requires
        forall|i: int| 0 <= i < s.len() ==> !white(#[trigger] s[i]) && s[i] != '-' && s[i] != '=',
    ensures
        secret_symbols(s) == s,
    decreases s.len(),
{
    if s.len() > 0 {
        let head = s.drop_last();
        assert forall|i: int| 0 <= i < head.len() implies !white(#[trigger] head[i]) && head[i]
            != '-' && head[i] != '=' by {
            assert(head[i] == s[i]);
        }
        assert(s[s.len() - 1] == s.last());
        lemma_bare_symbols(head);
        assert(secret_symbols(s) =~= s);
    } else {
        assert(secret_symbols(s) =~= s);
    }
}

} // verus!

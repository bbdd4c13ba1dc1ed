//! Session tokens: the SHA-256 digest of the registration time in hex.
use vstd::prelude::*;
use vstd::string::{StrSliceExecFns, StringExecFns};

verus! {

/// The lowercase hexadecimal digits, in order of value.
pub open spec fn hex_digits() -> Seq<char> {
    seq!['0', '1', '2', '3', '4', '5', '6', '7', '8', '9', 'a', 'b', 'c', 'd', 'e', 'f']
}

/// The lowercase hexadecimal digit for `d < 16`.
pub open spec fn hex_digit(d: nat) -> char {
    hex_digits()[d as int]
}

/// `n` written in lowercase hexadecimal, without leading zeros.
pub open spec fn hex_of(n: nat) -> Seq<char>
    decreases n,
{
    if n < 16 {
        seq![hex_digit(n)]
    } else {
        hex_of(n / 16).push(hex_digit(n % 16))
    }
}

/// The 64-bit pattern of `v`, read as an unsigned number (how `{:x}` prints an `i64`).
pub open spec fn bits_of(v: i64) -> nat {
    if v >= 0 {
        v as nat
    } else {
        (v + 0x1_0000_0000_0000_0000int) as nat
    }
}

/// The hex string of the SHA-256 digest of the UTF-8 text `s`.
pub uninterp spec fn sha256_hex(s: Seq<char>) -> Seq<char>;

/// Relies on chrono::Utc::now and DateTime::timestamp_millis: the current
/// time, which nothing here can predict.
#[verifier::external_body]
fn now_millis() -> (r: i64) {
    chrono::Utc::now().timestamp_millis()
}

/// `n` in lowercase hexadecimal, without leading zeros.
fn hex_u64(n: u64) -> (r: String)
    ensures
        r@ == hex_of(n as nat),
    decreases n,
{
    let digits: &str = "0123456789abcdef";
    proof {
        reveal_strlit("0123456789abcdef");
    }
    assert(digits@ =~= hex_digits());
    let d = (n % 16) as usize;
    let digit = digits.substring_char(d, d + 1);
    assert(digit@ =~= seq![hex_digit(d as nat)]);
    if n < 16 {
        let mut r = String::new();
        r.append(digit);
        assert(r@ =~= hex_of(n as nat));
        r
    } else {
        let mut r = hex_u64(n / 16);
        r.append(digit);
        assert(r@ =~= hex_of(n as nat));
        r
    }
}

/// `v` as `{:x}` prints it: lowercase digits, no leading zeros, and the
/// two's-complement bits for a negative value.
pub fn lower_hex(v: i64) -> (r: String)
    ensures
        r@ == hex_of(bits_of(v)),
{
    let n: u64 = if v >= 0 {
        v as u64
    } else {
        u64::MAX - (-(v + 1)) as u64
    };
    hex_u64(n)
}

/// Relies on sha256::digest, which hex-encodes the 32-byte digest of its
/// input as 64 lowercase characters (through hex::encode).
#[verifier::external_body]
fn sha256_digest(s: String) -> (r: String)
    ensures
        r@ == sha256_hex(s@),
        r@.len() == 64,
        forall|i: int| 0 <= i < r@.len() ==> hex_digits().contains(#[trigger] r@[i]),
{
    sha256::digest(s)
}

/// The token derived from the time `millis`, in milliseconds since the epoch.
pub fn token_for(millis: i64) -> (r: String)
    ensures
        r@ == sha256_hex(hex_of(bits_of(millis))),
        r@.len() == 64,
        forall|i: int| 0 <= i < r@.len() ==> hex_digits().contains(#[trigger] r@[i]),
{
    let text = lower_hex(millis);
    sha256_digest(text)
}

/// A fresh token, derived from the current time.
pub fn generate_epicos_tokens() -> (r: String)
    ensures
        exists|millis: i64| r@ == sha256_hex(hex_of(bits_of(millis))),
        r@.len() == 64,
        forall|i: int| 0 <= i < r@.len() ==> hex_digits().contains(#[trigger] r@[i]),
{
    let millis = now_millis();
    token_for(millis)
}

} // verus!

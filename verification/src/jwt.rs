//! The pure half of token handling: claims, the typed verification errors,
//! the three-segment shape a compact token must have, and the expiry rule.
//! Signing and signature checking are cryptographic collaborators of the
//! enclosing service and stay outside this library.

use vstd::prelude::*;
use vstd::string::StringSliceAdditionalSpecFns;

verus! {

/// Claims carried by an authentication token.
pub struct Claims {
    /// Subject: the user id, as the issuer spelled it.
    pub sub: String,
    /// Role string; the account rules parse it into the closed role set.
    pub role: String,
    /// Expiry, in seconds since the epoch.
    pub exp: i64,
}

/// Why verification of a token failed.
#[derive(Clone, Copy, Debug, PartialEq, Eq, Structural)]
pub enum JwtError {
    /// Not three dot-separated segments.
    InvalidFormat,
    /// A segment was not valid base64.
    Base64Decode,
    /// The signature did not match.
    InvalidSignature,
    /// The payload was not valid claims JSON.
    JsonError,
    /// The claims were valid but past their expiry.
    Expired,
}

/// Number of `.` bytes (value `DOT`) in `s`.
pub open spec fn dot_count(s: Seq<u8>) -> int
    decreases s.len(),
{
    if s.len() == 0 {
        0
    } else {
        dot_count(s.drop_last()) + if s.last() == DOT {
            1int
        } else {
            0int
        }
    }
}

/// The byte a `.` encodes to.
pub const DOT: u8 = 46;

/// A compact token consists of exactly three dot-separated segments, which
/// is the same as carrying exactly two `.` bytes.
pub fn token_shape_valid(token: &str) -> (ok: bool)
    ensures
        ok == (dot_count(token.spec_bytes()) == 2),
{
    let bytes = token.as_bytes();
    let mut dots: u64 = 0;
    let mut i: usize = 0;
    proof {
        assert(bytes@.take(0) =~= Seq::<u8>::empty());
    }
    while i < bytes.len()
        invariant
            i <= bytes@.len(),
            bytes@ == token.spec_bytes(),
            dots == dot_count(bytes@.take(i as int)),
            dots <= i,
        decreases bytes@.len() - i,
    {
        proof {
            assert(bytes@.take(i as int + 1).drop_last() =~= bytes@.take(i as int));
            assert(bytes@.take(i as int + 1).last() == bytes@[i as int]);
        }
        if bytes[i] == DOT {
            dots = dots + 1;
        }
        i = i + 1;
    }
    proof {
        assert(bytes@.take(bytes@.len() as int) =~= bytes@);
    }
    dots == 2
}

/// Claims are expired exactly when the clock has passed their expiry.
pub fn claims_expired(c: &Claims, now: i64) -> (b: bool)
    ensures
        b == (now > c.exp),
{
    now > c.exp
}

/// The last verification step once format, signature and payload parsing
/// have passed: expired claims are rejected, all others accepted.
pub fn check_claims(c: &Claims, now: i64) -> (r: Result<(), JwtError>)
    ensures
        now > c.exp ==> r == Err::<(), JwtError>(JwtError::Expired),
        now <= c.exp ==> r == Ok::<(), JwtError>(()),
{
    if claims_expired(c, now) {
        Err(JwtError::Expired)
    } else {
        Ok(())
    }
}

} // verus!

//! The authentication middleware's routing gate: which requests pass
//! without a token. The decision is pure string logic on the request path
//! and method; the middleware around it extracts both from the request and
//! decodes tokens through its cryptographic collaborator.

use vstd::prelude::*;
use vstd::string::StringSliceAdditionalSpecFns;

verus! {

/// `p` is a prefix of `s`.
pub open spec fn starts_with_bytes(s: Seq<u8>, p: Seq<u8>) -> bool {
    p.len() <= s.len() && s.subrange(0, p.len() as int) == p
}

/// `p` is a suffix of `s`.
pub open spec fn ends_with_bytes(s: Seq<u8>, p: Seq<u8>) -> bool {
    p.len() <= s.len() && s.subrange(s.len() - p.len(), s.len() as int) == p
}

/// Byte-for-byte equality of two slices.
fn bytes_eq(a: &[u8], b: &[u8]) -> (r: bool)
    ensures
        r == (a@ == b@),
{
    if a.len() != b.len() {
        return false;
    }
    let mut i: usize = 0;
    while i < a.len()
        invariant
            i <= a@.len(),
            a@.len() == b@.len(),
            forall|j: int| 0 <= j < i ==> a@[j] == b@[j],
        decreases a@.len() - i,
    {
        if a[i] != b[i] {
            return false;
        }
        i = i + 1;
    }
    proof {
        assert(a@ =~= b@);
    }
    true
}

/// Whether `s` starts with `p`, compared byte for byte.
fn str_starts_with(s: &str, p: &str) -> (r: bool)
    ensures
        r == starts_with_bytes(s.spec_bytes(), p.spec_bytes()),
{
    let sb = s.as_bytes();
    let pb = p.as_bytes();
    if pb.len() > sb.len() {
        return false;
    }
    let mut i: usize = 0;
    while i < pb.len()
        invariant
            i <= pb@.len(),
            pb@.len() <= sb@.len(),
            sb@ == s.spec_bytes(),
            pb@ == p.spec_bytes(),
            forall|j: int| 0 <= j < i ==> sb@[j] == pb@[j],
        decreases pb@.len() - i,
    {
        if sb[i] != pb[i] {
            proof {
                assert(s.spec_bytes().subrange(0, p.spec_bytes().len() as int)[i as int]
                    != p.spec_bytes()[i as int]);
            }
            return false;
        }
        i = i + 1;
    }
    proof {
        assert(sb@.subrange(0, pb@.len() as int) =~= pb@);
    }
    true
}

/// Whether `s` ends with `p`, compared byte for byte.
fn str_ends_with(s: &str, p: &str) -> (r: bool)
    ensures
        r == ends_with_bytes(s.spec_bytes(), p.spec_bytes()),
{
    let sb = s.as_bytes();
    let pb = p.as_bytes();
    if pb.len() > sb.len() {
        return false;
    }
    let off: usize = sb.len() - pb.len();
    let mut i: usize = 0;
    while i < pb.len()
        invariant
            i <= pb@.len(),
            sb@.len() <= usize::MAX,
            off == sb@.len() - pb@.len(),
            sb@ == s.spec_bytes(),
            pb@ == p.spec_bytes(),
            forall|j: int| 0 <= j < i ==> sb@[off + j] == pb@[j],
        decreases pb@.len() - i,
    {
        if sb[off + i] != pb[i] {
            proof {
                assert(s.spec_bytes().subrange(
                    s.spec_bytes().len() - p.spec_bytes().len(),
                    s.spec_bytes().len() as int,
                )[i as int] != p.spec_bytes()[i as int]);
            }
            return false;
        }
        i = i + 1;
    }
    proof {
        assert(sb@.subrange(sb@.len() - pb@.len(), sb@.len() as int) =~= pb@);
    }
    true
}

/// Byte-for-byte equality of two strings.
fn str_eq(a: &str, b: &str) -> (r: bool)
    ensures
        r == (a.spec_bytes() == b.spec_bytes()),
{
    bytes_eq(a.as_bytes(), b.as_bytes())
}

/// The requests the authentication middleware lets through without a
/// token: everything under the authentication routes, public reads of
/// vehicles and of auctions (but not of an auction's bids), and inquiry
/// submission.
pub open spec fn spec_route_public(path: Seq<u8>, method: Seq<u8>) -> bool {
    ||| starts_with_bytes(path, "/auth/".spec_bytes())
    ||| (starts_with_bytes(path, "/vehicles".spec_bytes()) && method == "GET".spec_bytes())
    ||| (starts_with_bytes(path, "/auctions".spec_bytes()) && method == "GET".spec_bytes()
        && !ends_with_bytes(path, "/bids".spec_bytes()))
    ||| (starts_with_bytes(path, "/inquiries".spec_bytes()) && method == "POST".spec_bytes())
}

/// Decide whether a request may bypass token authentication.
pub fn route_is_public(path: &str, method: &str) -> (ok: bool)
    ensures
        ok == spec_route_public(path.spec_bytes(), method.spec_bytes()),
{
    if str_starts_with(path, "/auth/") {
        return true;
    }
    if str_starts_with(path, "/vehicles") && str_eq(method, "GET") {
        return true;
    }
    if str_starts_with(path, "/auctions") && str_eq(method, "GET") && !str_ends_with(
        path,
        "/bids",
    ) {
        return true;
    }
    str_starts_with(path, "/inquiries") && str_eq(method, "POST")
}

} // verus!

//! Shared authentication utilities.

use vstd::prelude::*;
use vstd::string::StringSliceAdditionalSpecFns;

verus! {

/// Constant-time string comparison to prevent timing attacks.
///
/// Both inputs are compared byte-by-byte; the result is only
/// determined after all bytes have been examined, preventing an
/// attacker from learning the expected key one character at a time.
pub fn constant_time_eq(a: &str, b: &str) -> (r: bool)
    ensures
        r == (a@ == b@),
{
    let ab = a.as_bytes();
    let bb = b.as_bytes();
    proof {
        vstd::utf8::encode_utf8_decode_utf8(a@);
        vstd::utf8::encode_utf8_decode_utf8(b@);
    }
    if ab.len() != bb.len() {
        return false;
    }
    let mut diff: u8 = 0;
    let mut i: usize = 0;
    while i < ab.len()
        invariant
            ab@.len() == bb@.len(),
            i <= ab@.len(),
            (diff == 0) == (forall|k: int| 0 <= k < i ==> ab@[k] == bb@[k]),
        decreases ab@.len() - i,
    {
        let x = ab[i];
        let y = bb[i];
        let d2 = diff | (x ^ y);
        assert(d2 == 0 <==> (diff == 0 && x == y)) by (bit_vector)
            requires
                d2 == diff | (x ^ y),
        ;
        diff = d2;
        proof {
            if diff == 0 {
                assert forall|k: int| 0 <= k < i + 1 implies ab@[k] == bb@[k] by {
                    if k == i {
                    }
                }
            } else {
                if old_all_eq(ab@, bb@, i as int) {
                    assert(ab@[i as int] != bb@[i as int]);
                }
            }
        }
        i = i + 1;
    }
    proof {
        if diff == 0 {
            assert(ab@ =~= bb@);
        }
    }
    diff == 0
}

spec fn old_all_eq(a: Seq<u8>, b: Seq<u8>, i: int) -> bool {
    forall|k: int| 0 <= k < i ==> a[k] == b[k]
}

} // verus!

verus! {

/// Whether an `Authorization` header value presents the expected API key
/// as a bearer token: the value is `Bearer ` followed by exactly the key.
pub open spec fn bearer_matches(header: Option<Seq<char>>, expected: Seq<char>) -> bool {
    match header {
        Some(v) => crate::text::starts_with(v, "Bearer "@) && v.subrange(7, v.len() as int)
            == expected,
        None => false,
    }
}

/// Whether a request with this `Authorization` header value may pass.
pub fn bearer_ok(header: Option<&str>, expected: &str) -> (r: bool)
    ensures
        r == bearer_matches(
            match header {
                Some(h) => Some(h@),
                None => None,
            },
            expected@,
        ),
{
    match header {
        None => false,
        Some(h) => {
            let cs = crate::text::chars_of(h);
            let p = crate::text::chars_of("Bearer ");
            proof {
                reveal_strlit("Bearer ");
            }
            if !crate::text::starts_with_exec(&cs, &p) {
                return false;
            }
            let n = cs.len();
            let t = crate::text::slice_chars(&cs, 7, n);
            let e = crate::text::chars_of(expected);
            crate::text::chars_eq(&t, &e)
        },
    }
}

/// The reply to a request without a valid API key.
pub fn unauthorized_reply() -> (r: crate::api::ApiResp<()>)
    ensures
        !r.ok,
        r.data is None,
        r.error matches Some(e) && e@ == "invalid or missing API key"@,
{
    crate::api::ApiResp::err("invalid or missing API key")
}

} // verus!

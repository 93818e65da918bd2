//! Random identifiers for VMs and hosts.

use vstd::prelude::*;
use crate::text::{chars_of, string_from_chars};

verus! {

/// Whether `c` is a lowercase hexadecimal digit.
pub open spec fn is_lower_hex(c: char) -> bool {
    ('0' <= c <= '9') || ('a' <= c <= 'f')
}

/// The shape of a hyphenated lowercase UUID text: 36 characters, hyphens
/// at positions 8, 13, 18 and 23 and lowercase hex digits elsewhere.
pub open spec fn uuid_shape(s: Seq<char>) -> bool {
    &&& s.len() == 36
    &&& forall|i: int|
        0 <= i < 36 ==> if i == 8 || i == 13 || i == 18 || i == 23 {
            #[trigger] s[i] == '-'
        } else {
            is_lower_hex(s[i])
        }
}

/// `uuid::Uuid::new_v4()`, formatted with `Display`.
///
/// The value is random; the contract states only the shape that every
/// outcome has (the crate formats a UUID hyphenated, in lowercase).
#[verifier::external_body]
fn new_uuid_text() -> (s: String)
    ensures
        uuid_shape(s@),
{
    uuid::Uuid::new_v4().to_string()
}

/// The id made from a UUID text: its first `n` characters.
pub fn id_from_uuid(u: &str, n: usize) -> (s: String)
    requires
        n <= u@.len(),
    ensures
        s@ == u@.subrange(0, n as int),
{
    let cs = chars_of(u);
    let mut out: Vec<char> = Vec::new();
    let mut i: usize = 0;
    while i < n
        invariant
            n <= u@.len(),
            cs@ == u@,
            i <= n,
            out@ == u@.subrange(0, i as int),
        decreases n - i,
    {
        out.push(cs[i]);
        i = i + 1;
        assert(out@ =~= u@.subrange(0, i as int));
    }
    string_from_chars(&out)
}

/// The first `n` characters of a fresh random UUID text.
fn uuid_prefix(n: usize) -> (s: String)
    requires
        n <= 36,
    ensures
        s@.len() == n,
        exists|u: Seq<char>| uuid_shape(u) && s@ == u.subrange(0, n as int),
{
    let u = new_uuid_text();
    let s = id_from_uuid(u.as_str(), n);
    assert(uuid_shape(u@) && s@ == u@.subrange(0, n as int));
    s
}

/// A fresh VM id: the first 12 characters of a random UUID text
/// (8 hex digits, a hyphen, 3 hex digits).
pub fn new_vm_id() -> (s: String)
    ensures
        exists|u: Seq<char>| uuid_shape(u) && s@ == u.subrange(0, 12),
        s@.len() == 12,
        s@[8] == '-',
        forall|i: int| 0 <= i < 12 && i != 8 ==> is_lower_hex(#[trigger] s@[i]),
{
    let s = uuid_prefix(12);
    proof {
        let u = choose|u: Seq<char>| uuid_shape(u) && s@ == u.subrange(0, 12);
        assert(s@[8] == u[8]);
        assert forall|i: int| 0 <= i < 12 && i != 8 implies is_lower_hex(#[trigger] s@[i]) by {
            assert(s@[i] == u[i]);
        }
    }
    s
}

/// A fresh host id: the first 8 characters of a random UUID text (hex
/// digits).
pub fn new_host_id() -> (s: String)
    ensures
        exists|u: Seq<char>| uuid_shape(u) && s@ == u.subrange(0, 8),
        s@.len() == 8,
        forall|i: int| 0 <= i < 8 ==> is_lower_hex(#[trigger] s@[i]),
{
    let s = uuid_prefix(8);
    proof {
        let u = choose|u: Seq<char>| uuid_shape(u) && s@ == u.subrange(0, 8);
        assert forall|i: int| 0 <= i < 8 implies is_lower_hex(#[trigger] s@[i]) by {
            assert(s@[i] == u[i]);
        }
    }
    s
}

} // verus!

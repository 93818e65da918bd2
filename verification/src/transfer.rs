//! Remote command execution and file transfer between a client and a
//! server: the framing of requests and replies, the checks before a
//! transfer, and the accounting of a download.

use vstd::prelude::*;
use vstd::string::StringExecFns;
use crate::num::{all_digits, dec, dec_value, is_digit, lemma_dec, parse_u64, parse_u64_chars, u64_to_dec};
use crate::text::{chars_of, starts_with, starts_with_exec};

verus! {

/// Width of the length header that precedes a reply.
pub const TRANS_META_WIDTH: usize = 4;

/// Which way a file travels.
#[derive(PartialEq, Eq, Structural)]
pub enum Direction {
    /// From the server to the client.
    Get,
    /// From the client to the server.
    Push,
}

/// A file transfer request.
pub struct TransReq {
    pub drct: Direction,
    /// The client's file: sent on a push, written on a get.
    pub local_file_path: String,
    /// The server's file.
    pub remote_file_path: String,
    /// Size of the file the client sends (zero on a get).
    pub file_size: usize,
}

impl TransReq {
    /// A transfer request, after the checks on the local file: a push sends
    /// the file of size `local_size`; a get must not overwrite an existing
    /// local file.
    pub fn new(
        drct: Direction,
        local_file_path: String,
        remote_file_path: String,
        local_exists: bool,
        local_size: usize,
    ) -> (r: Result<TransReq, String>)
        ensures
            match drct {
                Direction::Push => r matches Ok(q) && q.drct == Direction::Push && q.local_file_path
                    == local_file_path && q.remote_file_path == remote_file_path && q.file_size
                    == local_size,
                Direction::Get => if local_exists {
                    r matches Err(m) && m@ == "File: `"@ + local_file_path@ + "` already exists!"@
                } else {
                    r matches Ok(q) && q.drct == Direction::Get && q.local_file_path == local_file_path
                        && q.remote_file_path == remote_file_path && q.file_size == 0
                },
            },
    {
        match drct {
            Direction::Push => Ok(
                TransReq { drct: Direction::Push, local_file_path, remote_file_path, file_size: local_size },
            ),
            Direction::Get => if local_exists {
                Err(
                    String::from_str("File: `").concat(local_file_path.as_str()).concat(
                        "` already exists!",
                    ),
                )
            } else {
                Ok(TransReq { drct: Direction::Get, local_file_path, remote_file_path, file_size: 0 })
            },
        }
    }
}

/// Decimal text of `n`, zero-padded to at least `w` digits.
pub open spec fn dec_pad(n: nat, w: nat) -> Seq<char> {
    if dec(n).len() < w {
        Seq::new((w - dec(n).len()) as nat, |i: int| '0') + dec(n)
    } else {
        dec(n)
    }
}

/// The length header of a request body of `len` bytes: its decimal
/// length zero-padded to four digits (more when it needs more).
pub fn meta_header(len: usize) -> (s: String)
    ensures
        s@ == dec_pad(len as nat, TRANS_META_WIDTH as nat),
{
    let d = u64_to_dec(len as u64);
    let k = d.unicode_len();
    if k < TRANS_META_WIDTH {
        let mut s = String::new();
        let mut i: usize = 0;
        while i < TRANS_META_WIDTH - k
            invariant
                k < TRANS_META_WIDTH,
                i <= TRANS_META_WIDTH - k,
                s@ == Seq::new(i as nat, |j: int| '0'),
            decreases TRANS_META_WIDTH - k - i,
        {
            s.push('0');
            i = i + 1;
            assert(s@ =~= Seq::new(i as nat, |j: int| '0'));
        }
        s.concat(d.as_str())
    } else {
        d
    }
}

/// Leading zeros leave the value of a digit sequence unchanged.
proof fn lemma_dec_value_zeros(k: nat, s: Seq<char>)
    ensures
        dec_value(Seq::new(k, |i: int| '0') + s) == dec_value(s),
    decreases s.len(), k,
{
    let z = Seq::new(k, |i: int| '0');
    if s.len() == 0 {
        assert(z + s =~= z);
        if k > 0 {
            let z1 = Seq::new((k - 1) as nat, |i: int| '0');
            lemma_dec_value_zeros((k - 1) as nat, s);
            assert(z1 + s =~= z1);
            assert(z.drop_last() =~= z1);
        }
    } else {
        lemma_dec_value_zeros(k, s.drop_last());
        assert((z + s).drop_last() =~= z + s.drop_last());
    }
}

/// A length header reads back as the length it was made from: the
/// receiver of a header written for a body of `len` bytes learns `len`.
pub proof fn lemma_meta_header_roundtrip(len: usize)
    ensures
        parse_u64(dec_pad(len as nat, TRANS_META_WIDTH as nat)) == Some(len as u64),
{
    let d = dec(len as nat);
    lemma_dec(len as nat);
    let s = dec_pad(len as nat, TRANS_META_WIDTH as nat);
    if d.len() < TRANS_META_WIDTH {
        let k = (TRANS_META_WIDTH - d.len()) as nat;
        let z = Seq::new(k, |i: int| '0');
        lemma_dec_value_zeros(k, d);
        assert(s =~= z + d);
        assert(all_digits(s)) by {
            assert forall|i: int| 0 <= i < s.len() implies is_digit(#[trigger] s[i]) by {
                if i >= k {
                    assert(s[i] == d[i - k]);
                }
            }
        }
        assert(s[0] == '0');
    } else {
        assert(is_digit(d[0]));
    }
}

/// The size a length header announces, when it reads as a number.
pub fn parse_meta_header(text: &str) -> (r: Option<usize>)
    ensures
        match r {
            Some(n) => parse_u64(text@) == Some(n as u64),
            None => parse_u64(text@) is None || parse_u64(text@).unwrap() > usize::MAX,
        },
{
    match parse_u64_chars(&chars_of(text)) {
        Some(v) => if v <= usize::MAX as u64 {
            Some(v as usize)
        } else {
            None
        },
        None => None,
    }
}

/// Whether a reply of `resp_size` bytes fits the receive buffer; the
/// error is the one a too large reply gets.
pub fn check_reply_size(capacity: usize, resp_size: usize) -> (r: Result<(), String>)
    ensures
        match r {
            Ok(()) => capacity >= resp_size,
            Err(m) => capacity < resp_size && m@ == "The fucking world is over!"@,
        },
{
    if capacity < resp_size {
        Err(String::from_str("The fucking world is over!"))
    } else {
        Ok(())
    }
}

/// The bytes of a download still to come after receiving `recvd` more:
/// a receive of nothing before the end is an error that states the
/// declared size and what arrived.
pub fn download_step(declared: usize, remaining: usize, recvd: usize) -> (r: Result<usize, String>)
    requires
        remaining <= declared,
        recvd <= remaining,
    ensures
        match r {
            Ok(left) => recvd > 0 && left == remaining - recvd,
            Err(m) => recvd == 0 && m@ == "declared_size: "@ + dec(declared as nat)
                + ", recvd: "@ + dec((declared - remaining) as nat),
        },
{
    if recvd == 0 {
        return Err(
            String::from_str("declared_size: ").concat(u64_to_dec(declared as u64).as_str()).concat(
                ", recvd: ",
            ).concat(u64_to_dec((declared - remaining) as u64).as_str()),
        );
    }
    Ok(remaining - recvd)
}

// ── Command line ────────────────────────────────────────────────────

/// The server address of the command line: `<addr>:<port>`, port 22000
/// by default.
pub fn server_addr(addr: &str, port: Option<&str>) -> (s: String)
    ensures
        s@ == addr@ + ":"@ + match port {
            Some(p) => p@,
            None => "22000"@,
        },
{
    let p = match port {
        Some(p) => p,
        None => "22000",
    };
    String::from_str(addr).concat(":").concat(p)
}

/// The time-out of the command line in seconds: 3 by default; `None`
/// when the text is not a number.
pub fn time_out(text: Option<&str>) -> (r: Option<u64>)
    ensures
        r == parse_u64(
            match text {
                Some(t) => t@,
                None => "3"@,
            },
        ),
{
    let t = match text {
        Some(t) => t,
        None => "3",
    };
    parse_u64_chars(&chars_of(t))
}

// ── Pushing a file to an environment ────────────────────────────────

/// Whether the file goes to a VM: every VM when no filter is given, else
/// a VM whose id is listed or whose system starts with a listed prefix
/// (both in lowercase).
pub open spec fn push_target(
    id: i32,
    os: Seq<char>,
    ids: Seq<i32>,
    prefixes: Seq<Seq<char>>,
) -> bool {
    (ids.len() == 0 && prefixes.len() == 0) || ids.contains(id) || exists|k: int|
        0 <= k < prefixes.len() && starts_with(
            crate::text::std_lowercase(os),
            crate::text::std_lowercase(#[trigger] prefixes[k]),
        )
}

/// Whether the file goes to the VM with this id and system.
pub fn is_push_target(id: i32, os: &str, ids: &[i32], prefixes: &[String]) -> (r: bool)
    ensures
        r == push_target(id, os@, ids@, crate::text::views(prefixes@)),
{
    if ids.len() == 0 && prefixes.len() == 0 {
        return true;
    }
    let mut i: usize = 0;
    while i < ids.len()
        invariant
            i <= ids@.len(),
            forall|k: int| 0 <= k < i ==> ids@[k] != id,
        decreases ids@.len() - i,
    {
        if ids[i] == id {
            assert(ids@[i as int] == id);
            return true;
        }
        i = i + 1;
    }
    let los = chars_of(crate::text::to_lowercase(os).as_str());
    let mut k: usize = 0;
    while k < prefixes.len()
        invariant
            los@ == crate::text::std_lowercase(os@),
            k <= prefixes@.len(),
            forall|j: int| 0 <= j < ids@.len() ==> ids@[j] != id,
            forall|m: int|
                0 <= m < k ==> !starts_with(
                    crate::text::std_lowercase(os@),
                    crate::text::std_lowercase(#[trigger] prefixes@[m]@),
                ),
        decreases prefixes@.len() - k,
    {
        let p = chars_of(crate::text::to_lowercase(prefixes[k].as_str()).as_str());
        if starts_with_exec(&los, &p) {
            assert(crate::text::views(prefixes@)[k as int] == prefixes@[k as int]@);
            return true;
        }
        k = k + 1;
    }
    proof {
        assert forall|m: int| 0 <= m < prefixes@.len() implies !starts_with(
            crate::text::std_lowercase(os@),
            crate::text::std_lowercase(#[trigger] crate::text::views(prefixes@)[m]),
        ) by {
            assert(crate::text::views(prefixes@)[m] == prefixes@[m]@);
        }
    }
    false
}

/// The check before a push: a file and at least one environment are
/// needed.
pub fn check_push(file_path: &str, env_count: usize) -> (r: Result<(), String>)
    ensures
        match r {
            Ok(()) => file_path@.len() > 0 && env_count > 0,
            Err(m) => if file_path@.len() == 0 {
                m@ == "Empty file_path!"@
            } else {
                env_count == 0 && m@ == "Empty env_set!"@
            },
        },
{
    if file_path.unicode_len() == 0 {
        return Err(String::from_str("Empty file_path!"));
    }
    if env_count == 0 {
        return Err(String::from_str("Empty env_set!"));
    }
    Ok(())
}

} // verus!

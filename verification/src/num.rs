//! Decimal and hexadecimal text of unsigned integers.

use vstd::prelude::*;
use vstd::string::StringExecFns;
use crate::text::string_from_chars;

verus! {

/// The decimal digit character for `d < 10`.
pub open spec fn digit_char(d: nat) -> char {
    ((d + 48) as u8) as char
}

/// Whether `c` is an ASCII decimal digit.
pub open spec fn is_digit(c: char) -> bool {
    '0' <= c <= '9'
}

/// The value of an ASCII decimal digit.
pub open spec fn digit_val(c: char) -> nat {
    ((c as u32) - 48) as nat
}

/// Decimal text of `n`, without leading zeros (`"0"` for zero).
pub open spec fn dec(n: nat) -> Seq<char>
    decreases n,
{
    if n < 10 {
        seq![digit_char(n)]
    } else {
        dec(n / 10).push(digit_char(n % 10))
    }
}

/// The value of a sequence of decimal digits (zero for the empty one).
pub open spec fn dec_value(s: Seq<char>) -> nat
    decreases s.len(),
{
    if s.len() == 0 {
        0
    } else {
        dec_value(s.drop_last()) * 10 + digit_val(s.last())
    }
}

/// Whether every character of `s` is a decimal digit.
pub open spec fn all_digits(s: Seq<char>) -> bool {
    forall|i: int| 0 <= i < s.len() ==> is_digit(#[trigger] s[i])
}

/// The digits of an unsigned integer text: an optional leading `+` is dropped.
pub open spec fn unsigned_digits(s: Seq<char>) -> Seq<char> {
    if s.len() > 0 && s[0] == '+' {
        s.drop_first()
    } else {
        s
    }
}

/// The value of an unsigned decimal text as std's integer parsing reads
/// it (an optional `+`, then one or more digits), or `None`.
pub open spec fn parse_unsigned(s: Seq<char>) -> Option<nat> {
    let d = unsigned_digits(s);
    if d.len() > 0 && all_digits(d) {
        Some(dec_value(d))
    } else {
        None
    }
}

/// `str::parse::<u32>` on the text `s`.
pub open spec fn parse_u32(s: Seq<char>) -> Option<u32> {
    match parse_unsigned(s) {
        Some(v) => if v <= u32::MAX {
            Some(v as u32)
        } else {
            None
        },
        None => None,
    }
}

/// `str::parse::<u64>` on the text `s`.
pub open spec fn parse_u64(s: Seq<char>) -> Option<u64> {
    match parse_unsigned(s) {
        Some(v) => if v <= u64::MAX {
            Some(v as u64)
        } else {
            None
        },
        None => None,
    }
}

/// The character of a digit is a digit, reads back as its value, and is
/// neither `.` nor `+`.
pub proof fn lemma_digit_char(d: nat)
    requires
        d < 10,
    ensures
        is_digit(digit_char(d)),
        digit_val(digit_char(d)) == d,
        digit_char(d) != '.',
        digit_char(d) != '+',
{
}

/// Decimal text is all digits, starts with a digit and reads back as its value.
pub proof fn lemma_dec(n: nat)
    ensures
        dec(n).len() > 0,
        all_digits(dec(n)),
        dec_value(dec(n)) == n,
        forall|i: int| 0 <= i < dec(n).len() ==> #[trigger] dec(n)[i] != '.',
    decreases n,
{
    lemma_digit_char(n % 10);
    if n < 10 {
        lemma_digit_char(n);
        assert(dec(n).drop_last() =~= Seq::<char>::empty());
        assert(dec_value(Seq::<char>::empty()) == 0);
    } else {
        lemma_dec(n / 10);
        let s = dec(n);
        assert(s.drop_last() =~= dec(n / 10));
        assert((n / 10) * 10 + n % 10 == n) by (nonlinear_arith);
        assert forall|i: int| 0 <= i < s.len() implies is_digit(#[trigger] s[i]) && s[i] != '.' by {
            if i < s.len() - 1 {
                assert(s[i] == dec(n / 10)[i]);
            }
        }
    }
}

/// Parsing the decimal text of a `u32` gives it back.
pub proof fn lemma_parse_dec_u32(n: u32)
    ensures
        parse_u32(dec(n as nat)) == Some(n),
{
    lemma_dec(n as nat);
    assert(dec(n as nat)[0] != '+');
}

proof fn lemma_dec_value_prefix_le(s: Seq<char>, k: int)
    requires
        0 <= k <= s.len(),
        all_digits(s),
    ensures
        dec_value(s.subrange(0, k)) <= dec_value(s),
    decreases s.len() - k,
{
    if k < s.len() {
        lemma_dec_value_prefix_le(s, k + 1);
        let t = s.subrange(0, k + 1);
        assert(t.drop_last() =~= s.subrange(0, k));
        assert(is_digit(s[k]));
    } else {
        assert(s.subrange(0, k) =~= s);
    }
}

/// Digits to their value, stopping once the value exceeds `max`.
///
/// Returns `None` when some character is not a digit or the value
/// exceeds `max`.
fn digits_value(d: &[char], max: u64) -> (r: Option<u64>)
    requires
        max < u64::MAX / 16,
    ensures
        match r {
            Some(v) => all_digits(d@) && v == dec_value(d@) && v <= max,
            None => !all_digits(d@) || dec_value(d@) > max,
        },
{
    let mut acc: u64 = 0;
    let mut i: usize = 0;
    while i < d.len()
        invariant
            max < u64::MAX / 16,
            i <= d@.len(),
            all_digits(d@.subrange(0, i as int)),
            acc == dec_value(d@.subrange(0, i as int)),
            acc <= max,
        decreases d@.len() - i,
    {
        let c = d[i];
        if !('0' <= c && c <= '9') {
            assert(!is_digit(d@[i as int]));
            return None;
        }
        let dv: u64 = (c as u32 - 48) as u64;
        let next = acc * 10 + dv;
        let ghost t = d@.subrange(0, i as int + 1);
        assert(t.drop_last() =~= d@.subrange(0, i as int));
        assert(all_digits(t)) by {
            assert forall|k: int| 0 <= k < t.len() implies is_digit(#[trigger] t[k]) by {
                if k < i {
                    assert(t[k] == d@.subrange(0, i as int)[k]);
                }
            }
        }
        if next > max {
            proof {
                if all_digits(d@) {
                    lemma_dec_value_prefix_le(d@, i as int + 1);
                }
            }
            return None;
        }
        acc = next;
        i = i + 1;
    }
    assert(d@.subrange(0, d@.len() as int) =~= d@);
    Some(acc)
}

/// Parse an unsigned decimal text bounded by `max`, as std does.
fn parse_bounded(s: &[char], max: u64) -> (r: Option<u64>)
    requires
        max < u64::MAX / 16,
    ensures
        match r {
            Some(v) => parse_unsigned(s@) == Some(v as nat) && v <= max,
            None => parse_unsigned(s@) is None || parse_unsigned(s@).unwrap() > max,
        },
{
    let start: usize = if s.len() > 0 && s[0] == '+' { 1 } else { 0 };
    let d = vstd::slice::slice_subrange(s, start, s.len());
    assert(d@ =~= unsigned_digits(s@));
    if d.len() == 0 {
        return None;
    }
    digits_value(d, max)
}

/// `str::parse::<u32>` over a character sequence.
pub fn parse_u32_chars(s: &[char]) -> (r: Option<u32>)
    ensures
        r == parse_u32(s@),
{
    match parse_bounded(s, 0xFFFF_FFFF) {
        Some(v) => Some(v as u32),
        None => None,
    }
}

/// `str::parse::<u32>` on a string slice.
pub fn parse_u32_str(s: &str) -> (r: Option<u32>)
    ensures
        r == parse_u32(s@),
{
    let cs = crate::text::chars_of(s);
    parse_u32_chars(&cs)
}

/// `str::parse::<u64>` over a character sequence.
pub fn parse_u64_chars(s: &[char]) -> (r: Option<u64>)
    ensures
        r == parse_u64(s@),
{
    let start: usize = if s.len() > 0 && s[0] == '+' { 1 } else { 0 };
    let d = vstd::slice::slice_subrange(s, start, s.len());
    assert(d@ =~= unsigned_digits(s@));
    if d.len() == 0 {
        return None;
    }
    let mut acc: u128 = 0;
    let mut i: usize = 0;
    while i < d.len()
        invariant
            d@ == unsigned_digits(s@),
            d@.len() > 0,
            i <= d@.len(),
            all_digits(d@.subrange(0, i as int)),
            acc == dec_value(d@.subrange(0, i as int)),
            acc <= u64::MAX,
        decreases d@.len() - i,
    {
        let c = d[i];
        if !('0' <= c && c <= '9') {
            assert(!is_digit(d@[i as int]));
            return None;
        }
        let dv: u128 = (c as u32 - 48) as u128;
        let next = acc * 10 + dv;
        let ghost t = d@.subrange(0, i as int + 1);
        assert(t.drop_last() =~= d@.subrange(0, i as int));
        assert(all_digits(t)) by {
            assert forall|k: int| 0 <= k < t.len() implies is_digit(#[trigger] t[k]) by {
                if k < i {
                    assert(t[k] == d@.subrange(0, i as int)[k]);
                }
            }
        }
        if next > 0xFFFF_FFFF_FFFF_FFFF {
            proof {
                if all_digits(d@) {
                    lemma_dec_value_prefix_le(d@, i as int + 1);
                }
            }
            return None;
        }
        acc = next;
        i = i + 1;
    }
    assert(d@.subrange(0, d@.len() as int) =~= d@);
    Some(acc as u64)
}

/// The decimal digit character of `d < 10`.
pub fn digit_char_exec(d: u32) -> (c: char)
    requires
        d < 10,
    ensures
        c == digit_char(d as nat),
{
    ((d as u8) + 48) as char
}

/// Decimal text of a `u64`.
pub fn u64_to_dec(n: u64) -> (s: String)
    ensures
        s@ == dec(n as nat),
    decreases n,
{
    if n < 10 {
        let mut s = String::new();
        s.push(digit_char_exec(n as u32));
        assert(s@ =~= dec(n as nat));
        s
    } else {
        let mut s = u64_to_dec(n / 10);
        s.push(digit_char_exec((n % 10) as u32));
        s
    }
}

/// Decimal text of a `u32`.
pub fn u32_to_dec(n: u32) -> (s: String)
    ensures
        s@ == dec(n as nat),
{
    u64_to_dec(n as u64)
}

} // verus!

verus! {

/// The lowercase hexadecimal digit character for `d < 16`.
pub open spec fn hex_char(d: nat) -> char {
    if d < 10 {
        ((d + 48) as u8) as char
    } else {
        ((d + 87) as u8) as char
    }
}

/// The low `n` hexadecimal digits of `v`, most significant first
/// (zero-padded).
pub open spec fn hex_fixed(v: nat, n: nat) -> Seq<char>
    decreases n,
{
    if n == 0 {
        Seq::<char>::empty()
    } else {
        hex_fixed(v / 16, (n - 1) as nat).push(hex_char(v % 16))
    }
}

/// Fixed-width hexadecimal text has exactly the width asked for.
pub proof fn lemma_hex_fixed_len(v: nat, n: nat)
    ensures
        hex_fixed(v, n).len() == n,
    decreases n,
{
    if n > 0 {
        lemma_hex_fixed_len(v / 16, (n - 1) as nat);
    }
}

/// The lowercase hexadecimal digit character of `d < 16`.
pub fn hex_char_exec(d: u64) -> (c: char)
    requires
        d < 16,
    ensures
        c == hex_char(d as nat),
{
    if d < 10 {
        ((d as u8) + 48) as char
    } else {
        ((d as u8) + 87) as char
    }
}

/// The low `n` hexadecimal digits of `v`, zero-padded.
pub fn hex_fixed_exec(v: u64, n: u32) -> (s: String)
    ensures
        s@ == hex_fixed(v as nat, n as nat),
    decreases n,
{
    if n == 0 {
        String::new()
    } else {
        let mut s = hex_fixed_exec(v / 16, n - 1);
        s.push(hex_char_exec(v % 16));
        s
    }
}


/// The number of hexadecimal digits of `v` (one for zero).
pub open spec fn hex_width(v: nat) -> nat
    decreases v,
{
    if v < 16 {
        1
    } else {
        1 + hex_width(v / 16)
    }
}

/// Hexadecimal text of `v` zero-padded to at least `w` digits, as the
/// format `{:0w$x}` writes it.
pub open spec fn hex_pad(v: nat, w: nat) -> Seq<char> {
    hex_fixed(v, if hex_width(v) < w { w } else { hex_width(v) })
}

/// `16` to the power `k`.
pub open spec fn pow16(k: nat) -> nat
    decreases k,
{
    if k == 0 {
        1
    } else {
        16 * pow16((k - 1) as nat)
    }
}

proof fn lemma_hex_width_pow(v: nat, k: nat)
    requires
        k >= 1,
        v < pow16(k),
    ensures
        hex_width(v) <= k,
    decreases k,
{
    if v >= 16 {
        let p = pow16((k - 1) as nat);
        assert(v < 16 * p);
        assert(v / 16 < p) by (nonlinear_arith)
            requires
                v < 16 * p,
        ;
        if k == 1 {
            assert(pow16(0) == 1);
        }
        lemma_hex_width_pow(v / 16, (k - 1) as nat);
    }
}

proof fn lemma_hex_width_bound(v: u128)
    ensures
        1 <= hex_width(v as nat) <= 32,
{
    assert(pow16(32) == 0x1_0000_0000_0000_0000_0000_0000_0000_0000nat) by {
        reveal_with_fuel(pow16, 33);
    }
    lemma_hex_width_pow(v as nat, 32);
}

/// The number of hexadecimal digits of `v`.
fn hex_width_exec(v: u128) -> (w: u32)
    ensures
        w == hex_width(v as nat),
    decreases v,
{
    proof {
        lemma_hex_width_bound(v);
    }
    if v < 16 {
        1
    } else {
        let w = hex_width_exec(v / 16);
        w + 1
    }
}

/// The low `n` hexadecimal digits of `v`, zero-padded.
fn hex_fixed_u128(v: u128, n: u32) -> (s: String)
    ensures
        s@ == hex_fixed(v as nat, n as nat),
    decreases n,
{
    if n == 0 {
        String::new()
    } else {
        let mut s = hex_fixed_u128(v / 16, n - 1);
        s.push(hex_char_exec((v % 16) as u64));
        s
    }
}

/// `format!("{:0w$x}", v)`.
pub fn hex_pad_exec(v: u128, w: u32) -> (s: String)
    ensures
        s@ == hex_pad(v as nat, w as nat),
{
    let k = hex_width_exec(v);
    let n = if k < w { w } else { k };
    hex_fixed_u128(v, n)
}

} // verus!

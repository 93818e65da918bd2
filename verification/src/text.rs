//! Small text utilities over character sequences.

use vstd::prelude::*;
use vstd::string::StringExecFns;

verus! {

/// `String::push` appends one character to the end of the string.
pub assume_specification[ String::push ](s: &mut String, ch: char)
    ensures
        final(s)@ == old(s)@.push(ch),
;

/// The characters of a string slice, in order.
pub fn chars_of(s: &str) -> (v: Vec<char>)
    ensures
        v@ == s@,
{
    let n = s.unicode_len();
    let mut v: Vec<char> = Vec::new();
    let mut i: usize = 0;
    while i < n
        invariant
            n == s@.len(),
            i <= n,
            v@ == s@.subrange(0, i as int),
        decreases n - i,
    {
        let c = s.get_char(i);
        v.push(c);
        i = i + 1;
        assert(v@ =~= s@.subrange(0, i as int));
    }
    assert(v@ =~= s@);
    v
}

/// A string holding exactly the given characters.
pub fn string_from_chars(v: &[char]) -> (s: String)
    ensures
        s@ == v@,
{
    let mut s = String::new();
    let mut i: usize = 0;
    while i < v.len()
        invariant
            i <= v@.len(),
            s@ == v@.subrange(0, i as int),
        decreases v@.len() - i,
    {
        s.push(v[i]);
        i = i + 1;
        assert(s@ =~= v@.subrange(0, i as int));
    }
    assert(v@.subrange(0, v@.len() as int) =~= v@);
    s
}

/// Whether two character sequences are equal.
pub fn chars_eq(a: &[char], b: &[char]) -> (r: bool)
    ensures
        r == (a@ == b@),
{
    if a.len() != b.len() {
        return false;
    }
    let mut i: usize = 0;
    while i < a.len()
        invariant
            a@.len() == b@.len(),
            i <= a@.len(),
            forall|k: int| 0 <= k < i ==> a@[k] == b@[k],
        decreases a@.len() - i,
    {
        if a[i] != b[i] {
            return false;
        }
        i = i + 1;
    }
    assert(a@ =~= b@);
    true
}

/// ASCII lowercase of one character; other characters are unchanged.
pub open spec fn lower_char(c: char) -> char {
    if 'A' <= c <= 'Z' { ((c as u32) + 32) as char } else { c }
}

/// ASCII lowercase of a character sequence.
pub open spec fn ascii_lower(s: Seq<char>) -> Seq<char> {
    s.map_values(|c: char| lower_char(c))
}

pub fn lower_char_exec(c: char) -> (r: char)
    ensures
        r == lower_char(c),
{
    if 'A' <= c && c <= 'Z' {
        let u: u8 = (c as u8) + 32;
        u as char
    } else {
        c
    }
}

pub fn ascii_lower_exec(s: &str) -> (v: Vec<char>)
    ensures
        v@ == ascii_lower(s@),
{
    let cs = chars_of(s);
    let mut v: Vec<char> = Vec::new();
    let mut i: usize = 0;
    while i < cs.len()
        invariant
            cs@ == s@,
            i <= cs@.len(),
            v@ == ascii_lower(s@).subrange(0, i as int),
        decreases cs@.len() - i,
    {
        let c = lower_char_exec(cs[i]);
        v.push(c);
        i = i + 1;
        assert(v@ =~= ascii_lower(s@).subrange(0, i as int));
    }
    assert(v@ =~= ascii_lower(s@));
    v
}

} // verus!

verus! {

/// Whether `c` has the Unicode `White_Space` property (what
/// `char::is_whitespace` tests): tab, line feed, vertical tab, form feed,
/// carriage return, space, next line, no-break space, ogham space mark,
/// the spaces U+2000 to U+200A, the line and paragraph separators, narrow
/// no-break space, medium mathematical space and ideographic space.
pub open spec fn white_space(c: char) -> bool {
    let u = c as u32;
    ||| 0x09 <= u <= 0x0D
    ||| u == 0x20
    ||| u == 0x85
    ||| u == 0xA0
    ||| u == 0x1680
    ||| 0x2000 <= u <= 0x200A
    ||| u == 0x2028
    ||| u == 0x2029
    ||| u == 0x202F
    ||| u == 0x205F
    ||| u == 0x3000
}

/// Whether `c` has the Unicode `White_Space` property, as
/// `char::is_whitespace` answers.
pub(crate) fn is_whitespace(c: char) -> (r: bool)
    ensures
        r == white_space(c),
{
    let u = c as u32;
    (0x09 <= u && u <= 0x0D) || u == 0x20 || u == 0x85 || u == 0xA0 || u == 0x1680 || (0x2000 <= u
        && u <= 0x200A) || u == 0x2028 || u == 0x2029 || u == 0x202F || u == 0x205F || u == 0x3000
}

/// The whitespace-separated words of `s`, as `str::split_whitespace`
/// yields them.
pub open spec fn words(s: Seq<char>) -> Seq<Seq<char>>
    decreases s.len(),
{
    if s.len() == 0 {
        Seq::<Seq<char>>::empty()
    } else {
        let w = words(s.drop_last());
        let c = s.last();
        if white_space(c) {
            w
        } else if s.len() == 1 || white_space(s[s.len() - 2]) {
            w.push(seq![c])
        } else {
            w.update(w.len() - 1, w.last().push(c))
        }
    }
}

proof fn lemma_words_nonempty_when_word_open(s: Seq<char>)
    requires
        s.len() > 0,
        !white_space(s.last()),
    ensures
        words(s).len() > 0,
    decreases s.len(),
{
    if s.len() > 1 && !white_space(s[s.len() - 2]) {
        assert(s.drop_last().last() == s[s.len() - 2]);
        lemma_words_nonempty_when_word_open(s.drop_last());
    }
}

/// The whitespace-separated words of `s`.
pub fn words_of(s: &[char]) -> (r: Vec<Vec<char>>)
    ensures
        r@.len() == words(s@).len(),
        forall|i: int| 0 <= i < r@.len() ==> #[trigger] r@[i]@ == words(s@)[i],
{
    let mut out: Vec<Vec<char>> = Vec::new();
    let mut i: usize = 0;
    assert(s@.subrange(0, 0) =~= Seq::<char>::empty());
    while i < s.len()
        invariant
            i <= s@.len(),
            out@.len() == words(s@.subrange(0, i as int)).len(),
            forall|k: int| 0 <= k < out@.len() ==> #[trigger] out@[k]@ == words(
                s@.subrange(0, i as int),
            )[k],
        decreases s@.len() - i,
    {
        let c = s[i];
        let ghost pre = s@.subrange(0, i as int);
        let ghost nxt = s@.subrange(0, i as int + 1);
        assert(nxt.drop_last() =~= pre);
        assert(nxt.last() == c);
        if is_whitespace(c) {
        } else if i == 0 || is_whitespace(s[i - 1]) {
            assert(i > 0 ==> nxt[nxt.len() - 2] == s@[i - 1]);
            let mut w: Vec<char> = Vec::new();
            w.push(c);
            out.push(w);
            assert(out@.last()@ =~= seq![c]);
            assert forall|k: int| 0 <= k < out@.len() implies #[trigger] out@[k]@ == words(
                nxt,
            )[k] by {}
        } else {
            assert(nxt[nxt.len() - 2] == s@[i - 1]);
            proof {
                lemma_words_nonempty_when_word_open(pre);
                assert(pre.last() == s@[i - 1]);
            }
            let last = out.len() - 1;
            let mut w = out.remove(last);
            w.push(c);
            out.push(w);
            assert forall|k: int| 0 <= k < out@.len() implies #[trigger] out@[k]@ == words(
                nxt,
            )[k] by {}
        }
        i = i + 1;
    }
    assert(s@.subrange(0, s@.len() as int) =~= s@);
    out
}

/// Whether `s` begins with `prefix`.
pub open spec fn starts_with(s: Seq<char>, prefix: Seq<char>) -> bool {
    prefix.len() <= s.len() && s.subrange(0, prefix.len() as int) == prefix
}

/// Whether `s` begins with `prefix`.
pub fn starts_with_exec(s: &[char], prefix: &[char]) -> (r: bool)
    ensures
        r == starts_with(s@, prefix@),
{
    if prefix.len() > s.len() {
        return false;
    }
    let mut i: usize = 0;
    while i < prefix.len()
        invariant
            prefix@.len() <= s@.len(),
            i <= prefix@.len(),
            forall|k: int| 0 <= k < i ==> s@[k] == prefix@[k],
        decreases prefix@.len() - i,
    {
        if s[i] != prefix[i] {
            assert(s@.subrange(0, prefix@.len() as int)[i as int] != prefix@[i as int]);
            return false;
        }
        i = i + 1;
    }
    assert(s@.subrange(0, prefix@.len() as int) =~= prefix@);
    true
}

} // verus!

verus! {

/// `l` without one trailing carriage return.
pub open spec fn strip_cr(l: Seq<char>) -> Seq<char> {
    if l.len() > 0 && l.last() == '\r' {
        l.drop_last()
    } else {
        l
    }
}

/// The lines of `s` as `str::lines` yields them: split at `\n`, a `\r`
/// before the `\n` removed, and no empty line after a final `\n`.
pub open spec fn lines(s: Seq<char>) -> Seq<Seq<char>> {
    let p = crate::net::split_on(s, '\n');
    let body = if p.last().len() == 0 {
        p.drop_last()
    } else {
        p
    };
    Seq::new(body.len(), |i: int| if i < p.len() - 1 { strip_cr(body[i]) } else { body[i] })
}

/// The lines of `s`.
pub fn lines_of(s: &[char]) -> (r: Vec<Vec<char>>)
    ensures
        r@.len() == lines(s@).len(),
        forall|i: int| 0 <= i < r@.len() ==> #[trigger] r@[i]@ == lines(s@)[i],
{
    let parts = crate::net::split_chars(s, '\n');
    proof {
        crate::net::lemma_split_nonempty(s@, '\n');
    }
    let n = parts.len();
    let last_empty = parts[n - 1].len() == 0;
    let m = if last_empty { n - 1 } else { n };
    let mut out: Vec<Vec<char>> = Vec::new();
    let mut i: usize = 0;
    while i < m
        invariant
            n == parts@.len(),
            n == crate::net::split_on(s@, '\n').len(),
            n >= 1,
            m <= n,
            m == lines(s@).len(),
            forall|k: int| 0 <= k < n ==> #[trigger] parts@[k]@ == crate::net::split_on(s@, '\n')[k],
            i <= m,
            out@.len() == i,
            forall|k: int| 0 <= k < i ==> #[trigger] out@[k]@ == lines(s@)[k],
        decreases m - i,
    {
        let p = &parts[i];
        let mut l: Vec<char> = Vec::new();
        let strip = i + 1 < n && p.len() > 0 && p[p.len() - 1] == '\r';
        let keep = if strip { p.len() - 1 } else { p.len() };
        let mut j: usize = 0;
        while j < keep
            invariant
                keep <= p@.len(),
                j <= keep,
                l@ == p@.subrange(0, j as int),
            decreases keep - j,
        {
            l.push(p[j]);
            j = j + 1;
            assert(l@ =~= p@.subrange(0, j as int));
        }
        assert(l@ =~= lines(s@)[i as int]);
        out.push(l);
        i = i + 1;
    }
    out
}

/// The index of the first of `ls` that starts with `prefix`.
pub open spec fn first_starting_with(ls: Seq<Seq<char>>, prefix: Seq<char>) -> Option<int>
    decreases ls.len(),
{
    if ls.len() == 0 {
        None
    } else if starts_with(ls[0], prefix) {
        Some(0)
    } else {
        match first_starting_with(ls.drop_first(), prefix) {
            Some(k) => Some(k + 1),
            None => None,
        }
    }
}

/// When no line before `i` starts with `prefix`, the first such line is
/// line `i` if it does, and there is none when `i` is the end.
pub proof fn lemma_first_starting_with(ls: Seq<Seq<char>>, prefix: Seq<char>, i: int)
    requires
        0 <= i <= ls.len(),
        forall|k: int| 0 <= k < i ==> !starts_with(#[trigger] ls[k], prefix),
    ensures
        i < ls.len() && starts_with(ls[i], prefix) ==> first_starting_with(ls, prefix) == Some(i),
        i == ls.len() ==> first_starting_with(ls, prefix) is None,
    decreases i,
{
    if i > 0 {
        assert forall|k: int| 0 <= k < i - 1 implies !starts_with(
            #[trigger] ls.drop_first()[k],
            prefix,
        ) by {
            assert(ls.drop_first()[k] == ls[k + 1]);
        }
        lemma_first_starting_with(ls.drop_first(), prefix, i - 1);
        assert(!starts_with(ls[0], prefix));
    }
}

} // verus!

verus! {

/// `s` without the leading characters that satisfy `p`.
pub open spec fn trim_start_by(s: Seq<char>, p: spec_fn(char) -> bool) -> Seq<char>
    decreases s.len(),
{
    if s.len() > 0 && p(s[0]) {
        trim_start_by(s.drop_first(), p)
    } else {
        s
    }
}

/// `s` without the trailing characters that satisfy `p`.
pub open spec fn trim_end_by(s: Seq<char>, p: spec_fn(char) -> bool) -> Seq<char>
    decreases s.len(),
{
    if s.len() > 0 && p(s.last()) {
        trim_end_by(s.drop_last(), p)
    } else {
        s
    }
}

/// `s` with every leading and trailing character that satisfies `p`
/// removed.
pub open spec fn trim_by(s: Seq<char>, p: spec_fn(char) -> bool) -> Seq<char> {
    trim_end_by(trim_start_by(s, p), p)
}

/// What a trim removes: whitespace (`None`) or one given character.
pub open spec fn trim_pred(mode: Option<char>) -> spec_fn(char) -> bool {
    match mode {
        None => |c: char| white_space(c),
        Some(q) => |c: char| c == q,
    }
}

/// `str::trim`: leading and trailing whitespace removed.
pub open spec fn trim(s: Seq<char>) -> Seq<char> {
    trim_by(s, trim_pred(None))
}

/// `str::trim_matches` with a single character.
pub open spec fn trim_char(s: Seq<char>, q: char) -> Seq<char> {
    trim_by(s, trim_pred(Some(q)))
}

/// Trimming the start drops exactly the leading run of characters that
/// match `p`.
pub proof fn lemma_trim_start_at(s: Seq<char>, p: spec_fn(char) -> bool, i: int)
    requires
        0 <= i <= s.len(),
        forall|k: int| 0 <= k < i ==> p(#[trigger] s[k]),
        i == s.len() || !p(s[i]),
    ensures
        trim_start_by(s, p) == s.subrange(i, s.len() as int),
    decreases i,
{
    if i == 0 {
        assert(s.subrange(0, s.len() as int) =~= s);
    } else {
        assert(p(s[0]));
        let t = s.drop_first();
        assert forall|k: int| 0 <= k < i - 1 implies p(#[trigger] t[k]) by {
            assert(t[k] == s[k + 1]);
        }
        lemma_trim_start_at(t, p, i - 1);
        assert(t.subrange(i - 1, t.len() as int) =~= s.subrange(i, s.len() as int));
    }
}

/// Trimming the end drops exactly the trailing run of characters that
/// match `p`.
pub proof fn lemma_trim_end_at(s: Seq<char>, p: spec_fn(char) -> bool, j: int)
    requires
        0 <= j <= s.len(),
        forall|k: int| j <= k < s.len() ==> p(#[trigger] s[k]),
        j == 0 || !p(s[j - 1]),
    ensures
        trim_end_by(s, p) == s.subrange(0, j),
    decreases s.len() - j,
{
    if j == s.len() {
        assert(s.subrange(0, j) =~= s);
        if s.len() > 0 {
            assert(s.last() == s[j - 1]);
        }
    } else {
        assert(p(s.last()));
        let t = s.drop_last();
        assert forall|k: int| j <= k < t.len() implies p(#[trigger] t[k]) by {
            assert(t[k] == s[k]);
        }
        if j > 0 {
            assert(t[j - 1] == s[j - 1]);
        }
        lemma_trim_end_at(t, p, j);
        assert(t.subrange(0, j) =~= s.subrange(0, j));
    }
}

/// Whether `c` is removed by a trim in `mode`.
fn trims(c: char, mode: Option<char>) -> (r: bool)
    ensures
        r == (trim_pred(mode))(c),
{
    match mode {
        None => is_whitespace(c),
        Some(q) => c == q,
    }
}

/// `s` with the characters that a trim in `mode` removes taken off both
/// ends.
fn trim_mode(s: &[char], mode: Option<char>) -> (r: Vec<char>)
    ensures
        r@ == trim_by(s@, trim_pred(mode)),
{
    let ghost p = trim_pred(mode);
    let n = s.len();
    let mut i: usize = 0;
    while i < n && trims(s[i], mode)
        invariant
            n == s@.len(),
            i <= n,
            p == trim_pred(mode),
            forall|k: int| 0 <= k < i ==> p(#[trigger] s@[k]),
        decreases n - i,
    {
        i = i + 1;
    }
    proof {
        lemma_trim_start_at(s@, p, i as int);
    }
    let ghost t = s@.subrange(i as int, n as int);
    let mut j: usize = n;
    while j > i && trims(s[j - 1], mode)
        invariant
            n == s@.len(),
            i <= j <= n,
            p == trim_pred(mode),
            t == s@.subrange(i as int, n as int),
            forall|k: int| j <= k < n ==> p(#[trigger] s@[k]),
        decreases j - i,
    {
        j = j - 1;
    }
    proof {
        assert forall|k: int| (j - i) <= k < t.len() implies p(#[trigger] t[k]) by {
            assert(t[k] == s@[k + i]);
        }
        if j > i {
            assert(t[j - i - 1] == s@[j - 1]);
        }
        lemma_trim_end_at(t, p, j - i);
    }
    let mut out: Vec<char> = Vec::new();
    let mut k: usize = i;
    while k < j
        invariant
            i <= k <= j,
            j <= n,
            n == s@.len(),
            out@ == s@.subrange(i as int, k as int),
        decreases j - k,
    {
        out.push(s[k]);
        k = k + 1;
        assert(out@ =~= s@.subrange(i as int, k as int));
    }
    assert(out@ =~= t.subrange(0, j - i));
    out
}

/// `str::trim` on a character sequence.
pub fn trim_ws(s: &[char]) -> (r: Vec<char>)
    ensures
        r@ == trim(s@),
{
    trim_mode(s, None)
}

/// `str::trim_matches(q)` on a character sequence.
pub fn trim_char_exec(s: &[char], q: char) -> (r: Vec<char>)
    ensures
        r@ == trim_char(s@, q),
{
    trim_mode(s, Some(q))
}

} // verus!

verus! {

/// The index of the first `c` in `s`.
pub open spec fn index_of_char(s: Seq<char>, c: char) -> Option<int>
    decreases s.len(),
{
    if s.len() == 0 {
        None
    } else if s[0] == c {
        Some(0)
    } else {
        match index_of_char(s.drop_first(), c) {
            Some(k) => Some(k + 1),
            None => None,
        }
    }
}

/// The index of the last `c` in `s`.
pub open spec fn last_index_of_char(s: Seq<char>, c: char) -> Option<int>
    decreases s.len(),
{
    if s.len() == 0 {
        None
    } else if s.last() == c {
        Some(s.len() - 1)
    } else {
        last_index_of_char(s.drop_last(), c)
    }
}

/// When `c` does not occur before `i`, its first occurrence is at `i` if
/// it is there, and there is none when `i` is the end.
pub proof fn lemma_index_of_char(s: Seq<char>, c: char, i: int)
    requires
        0 <= i <= s.len(),
        forall|k: int| 0 <= k < i ==> #[trigger] s[k] != c,
    ensures
        i < s.len() && s[i] == c ==> index_of_char(s, c) == Some(i),
        i == s.len() ==> index_of_char(s, c) is None,
    decreases i,
{
    if i > 0 {
        let t = s.drop_first();
        assert forall|k: int| 0 <= k < i - 1 implies #[trigger] t[k] != c by {
            assert(t[k] == s[k + 1]);
        }
        lemma_index_of_char(t, c, i - 1);
        assert(s[0] != c);
        if i < s.len() {
            assert(t[i - 1] == s[i]);
        }
    }
}

/// When `c` does not occur from `j` on, its last occurrence is at `j - 1`
/// if it is there, and there is none when `j` is the start.
pub proof fn lemma_last_index_of_char(s: Seq<char>, c: char, j: int)
    requires
        0 <= j <= s.len(),
        forall|k: int| j <= k < s.len() ==> #[trigger] s[k] != c,
    ensures
        j > 0 && s[j - 1] == c ==> last_index_of_char(s, c) == Some(j - 1),
        j == 0 ==> last_index_of_char(s, c) is None,
    decreases s.len() - j,
{
    if j < s.len() {
        let t = s.drop_last();
        assert forall|k: int| j <= k < t.len() implies #[trigger] t[k] != c by {
            assert(t[k] == s[k]);
        }
        assert(s.last() == s[s.len() - 1]);
        lemma_last_index_of_char(t, c, j);
        if j > 0 {
            assert(t[j - 1] == s[j - 1]);
        }
    } else if j > 0 {
        assert(s.last() == s[j - 1]);
    }
}

/// The index of the first `c` in `s`.
pub fn index_of_char_exec(s: &[char], c: char) -> (r: Option<usize>)
    ensures
        match r {
            Some(i) => index_of_char(s@, c) == Some(i as int) && i < s@.len() && s@[i as int] == c,
            None => index_of_char(s@, c) is None,
        },
{
    let mut i: usize = 0;
    while i < s.len()
        invariant
            i <= s@.len(),
            forall|k: int| 0 <= k < i ==> #[trigger] s@[k] != c,
        decreases s@.len() - i,
    {
        if s[i] == c {
            proof {
                lemma_index_of_char(s@, c, i as int);
            }
            return Some(i);
        }
        i = i + 1;
    }
    proof {
        lemma_index_of_char(s@, c, i as int);
    }
    None
}

/// The index of the last `c` in `s`.
pub fn last_index_of_char_exec(s: &[char], c: char) -> (r: Option<usize>)
    ensures
        match r {
            Some(i) => last_index_of_char(s@, c) == Some(i as int) && i < s@.len() && s@[i as int]
                == c,
            None => last_index_of_char(s@, c) is None,
        },
{
    let mut j: usize = s.len();
    while j > 0
        invariant
            j <= s@.len(),
            forall|k: int| j <= k < s@.len() ==> #[trigger] s@[k] != c,
        decreases j,
    {
        if s[j - 1] == c {
            proof {
                lemma_last_index_of_char(s@, c, j as int);
            }
            return Some(j - 1);
        }
        j = j - 1;
    }
    proof {
        lemma_last_index_of_char(s@, c, 0);
    }
    None
}

/// The characters of `s` from `from` up to, not including, `to`.
pub fn slice_chars(s: &[char], from: usize, to: usize) -> (r: Vec<char>)
    requires
        from <= to <= s@.len(),
    ensures
        r@ == s@.subrange(from as int, to as int),
{
    let mut out: Vec<char> = Vec::new();
    let mut k: usize = from;
    while k < to
        invariant
            from <= k <= to,
            to <= s@.len(),
            out@ == s@.subrange(from as int, k as int),
        decreases to - k,
    {
        out.push(s[k]);
        k = k + 1;
        assert(out@ =~= s@.subrange(from as int, k as int));
    }
    out
}

/// The parts joined into one text, `sep` between neighbours.
pub open spec fn join(parts: Seq<Seq<char>>, sep: Seq<char>) -> Seq<char>
    decreases parts.len(),
{
    if parts.len() == 0 {
        Seq::<char>::empty()
    } else if parts.len() == 1 {
        parts[0]
    } else {
        join(parts.drop_last(), sep) + sep + parts.last()
    }
}

/// The texts held by a sequence of strings.
pub open spec fn views(parts: Seq<String>) -> Seq<Seq<char>> {
    Seq::new(parts.len(), |i: int| parts[i]@)
}

/// `parts.join(sep)`.
pub fn join_strings(parts: &[String], sep: &str) -> (s: String)
    ensures
        s@ == join(views(parts@), sep@),
{
    let mut s = String::new();
    let mut i: usize = 0;
    while i < parts.len()
        invariant
            i <= parts@.len(),
            s@ == join(views(parts@).take(i as int), sep@),
        decreases parts@.len() - i,
    {
        let ghost before = views(parts@).take(i as int);
        if i > 0 {
            s.append(sep);
        }
        s.append(parts[i].as_str());
        i = i + 1;
        proof {
            let now = views(parts@).take(i as int);
            assert(now.drop_last() =~= before);
            assert(now.last() == parts@[i - 1]@);
            if i == 1 {
                assert(before.len() == 0);
                assert(s@ =~= now[0]);
            }
        }
    }
    assert(views(parts@).take(parts@.len() as int) =~= views(parts@));
    s
}

} // verus!

verus! {

/// Whether `t` occurs in `s`.
pub open spec fn contains_text(s: Seq<char>, t: Seq<char>) -> bool {
    exists|i: int| 0 <= i && i + t.len() <= s.len() && #[trigger] s.subrange(i, i + t.len()) == t
}

/// Whether `t` occurs in `s`, as `str::contains` tells.
pub fn contains_text_exec(s: &str, t: &str) -> (r: bool)
    ensures
        r == contains_text(s@, t@),
{
    let cs = chars_of(s);
    let ct = chars_of(t);
    contains_chars(&cs, &ct)
}

/// Whether `ct` occurs in `cs`.
pub fn contains_chars(cs: &[char], ct: &[char]) -> (r: bool)
    ensures
        r == contains_text(cs@, ct@),
{
    let ghost s = cs@;
    let ghost t = ct@;
    let n = cs.len();
    let m = ct.len();
    if m > n {
        return false;
    }
    let mut i: usize = 0;
    while i <= n - m
        invariant
            cs@ == s,
            ct@ == t,
            n == s.len(),
            m == t.len(),
            m <= n,
            i <= n - m + 1,
            forall|k: int| 0 <= k < i ==> #[trigger] s.subrange(k, k + m) != t,
        decreases n - m + 1 - i,
    {
        let mut j: usize = 0;
        let mut same = true;
        while j < m
            invariant
                cs@ == s,
                ct@ == t,
                n == s.len(),
                m == t.len(),
                i + m <= n,
                j <= m,
                same == (forall|q: int| 0 <= q < j ==> s[i + q] == t[q]),
            decreases m - j,
        {
            if cs[i + j] != ct[j] {
                same = false;
            }
            j = j + 1;
        }
        if same {
            assert(s.subrange(i as int, i + m) =~= t);
            return true;
        }
        assert(s.subrange(i as int, i + m) != t) by {
            let q = choose|q: int| 0 <= q < m && s[i + q] != t[q];
            assert(s.subrange(i as int, i + m)[q] == s[i + q]);
        }
        i = i + 1;
    }
    false
}

} // verus!

verus! {

/// Where the last occurrence of `t` in `s` starts.
pub open spec fn last_occurrence(s: Seq<char>, t: Seq<char>) -> Option<int>
    decreases s.len(),
{
    if s.len() < t.len() {
        None
    } else if s.subrange(s.len() - t.len(), s.len() as int) == t {
        Some(s.len() - t.len())
    } else if s.len() == 0 {
        None
    } else {
        last_occurrence(s.drop_last(), t)
    }
}

/// The text after the last occurrence of `t` in `s` (all of `s` when `t`
/// does not occur), as the first item of `str::rsplit(t)`.
pub open spec fn after_last(s: Seq<char>, t: Seq<char>) -> Seq<char> {
    match last_occurrence(s, t) {
        Some(k) => s.subrange(k + t.len(), s.len() as int),
        None => s,
    }
}

proof fn lemma_last_occurrence_prefix(s: Seq<char>, t: Seq<char>, e: int)
    requires
        t.len() <= e <= s.len(),
        forall|k: int| e - t.len() < k && k + t.len() <= s.len() ==> #[trigger] s.subrange(k, k + t.len()) != t,
    ensures
        last_occurrence(s, t) == last_occurrence(s.subrange(0, e), t),
    decreases s.len() - e,
{
    if e < s.len() {
        let k = s.len() - t.len();
        assert(e - t.len() < k);
        assert(s.subrange(k, k + t.len()) != t);
        let d = s.drop_last();
        if s.len() > 0 {
            assert forall|k2: int| e - t.len() < k2 && k2 + t.len() <= d.len() implies #[trigger] d.subrange(k2, k2 + t.len()) != t by {
                assert(d.subrange(k2, k2 + t.len()) =~= s.subrange(k2, k2 + t.len()));
            }
            lemma_last_occurrence_prefix(d, t, e);
            assert(d.subrange(0, e) =~= s.subrange(0, e));
        }
    } else {
        assert(s.subrange(0, e) =~= s);
    }
}

/// The text after the last occurrence of `t` in `s`.
pub fn after_last_exec(s: &[char], t: &[char]) -> (r: Vec<char>)
    ensures
        r@ == after_last(s@, t@),
{
    let n = s.len();
    let m = t.len();
    if n < m {
        return slice_chars(s, 0, n);
    }
    let top = n - m;
    let mut c: usize = 0;
    while c <= top
        invariant
            n == s@.len(),
            m == t@.len(),
            m <= n,
            top == n - m,
            c <= top + 1,
            forall|k: int| top - c < k <= top ==> #[trigger] s@.subrange(k, k + m) != t@,
        decreases top + 1 - c,
    {
        let start = top - c;
        let e = start + m;
        let mut j: usize = 0;
        let mut same = true;
        while j < m
            invariant
                n == s@.len(),
                m == t@.len(),
                start + m == e,
                e <= n,
                j <= m,
                same == (forall|q: int| 0 <= q < j ==> s@[start + q] == t@[q]),
            decreases m - j,
        {
            if s[start + j] != t[j] {
                same = false;
            }
            j = j + 1;
        }
        if same {
            proof {
                assert(s@.subrange(start as int, e as int) =~= t@);
                lemma_last_occurrence_prefix(s@, t@, e as int);
                let p = s@.subrange(0, e as int);
                assert(p.subrange(p.len() - m, p.len() as int) =~= t@);
            }
            return slice_chars(s, e, n);
        }
        proof {
            let q = choose|q: int| 0 <= q < m && s@[start + q] != t@[q];
            assert(s@.subrange(start as int, e as int)[q] == s@[start + q]);
        }
        c = c + 1;
    }
    proof {
        lemma_last_occurrence_prefix(s@, t@, m as int);
        let p = s@.subrange(0, m as int);
        assert(s@.subrange(0, 0 + m) != t@);
        assert(p.subrange(p.len() - t@.len(), p.len() as int) =~= p);
        assert(p != t@);
        if p.len() > 0 {
            assert(p.drop_last().len() < t@.len());
            assert(last_occurrence(p.drop_last(), t@) is None);
        }
        assert(last_occurrence(p, t@) is None);
        assert(s@.subrange(0, n as int) =~= s@);
    }
    slice_chars(s, 0, n)
}

} // verus!

verus! {

/// What `str::to_lowercase` gives for `s` (Unicode lowercase mapping).
pub uninterp spec fn std_lowercase(s: Seq<char>) -> Seq<char>;

/// `str::to_lowercase`; its result is named, not spelled out.
#[verifier::external_body]
pub(crate) fn to_lowercase(s: &str) -> (r: String)
    ensures
        r@ == std_lowercase(s@),
{
    s.to_lowercase()
}

} // verus!

verus! {

/// What `char::is_numeric` gives for `c` (the Unicode numeric
/// categories).
pub uninterp spec fn std_is_numeric(c: char) -> bool;

/// `char::is_numeric`; its result is named, not spelled out.
#[verifier::external_body]
pub(crate) fn is_numeric(c: char) -> (r: bool)
    ensures
        r == std_is_numeric(c),
{
    c.is_numeric()
}

} // verus!

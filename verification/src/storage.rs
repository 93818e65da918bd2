//! Image storage backends: naming of ZFS datasets and snapshots, and
//! reading the image lists that the backends report.

use vstd::prelude::*;
use vstd::string::StringExecFns;
use crate::model::Storage;
use crate::text::{
    after_last, after_last_exec, chars_eq, chars_of, last_occurrence, lines, lines_of,
    starts_with, starts_with_exec, string_from_chars, trim, trim_ws, views,
};

verus! {

broadcast use vstd::seq_lib::group_to_multiset_ensures;

/// The name of a storage backend.
pub fn store_name(kind: Storage) -> (s: String)
    ensures
        s@ == crate::model::storage_name(kind),
{
    kind.to_string()
}

/// The format of the disk a VM boots from when its image clone is a file
/// or a directory (the images are qcow2).
pub const CLONE_DISK_FORMAT: &'static str = "qcow2";

/// The format of a disk that is a ZFS volume (a raw block device).
pub const ZVOL_DISK_FORMAT: &'static str = "raw";

/// The block device of a ZFS volume clone.
pub fn zvol_device(clone_path: &str) -> (s: String)
    ensures
        s@ == "/dev/zvol/"@ + clone_path@,
{
    String::from_str("/dev/zvol/").concat(clone_path)
}

// ── Text order ──────────────────────────────────────────────────────

/// `a` sorts before `b`: character by character, a proper prefix first.
pub open spec fn text_lt(a: Seq<char>, b: Seq<char>) -> bool
    decreases a.len(),
{
    if a.len() == 0 {
        b.len() > 0
    } else if b.len() == 0 {
        false
    } else if a[0] != b[0] {
        a[0] < b[0]
    } else {
        text_lt(a.drop_first(), b.drop_first())
    }
}

/// `a` sorts before `b` or equals it.
pub open spec fn text_le(a: Seq<char>, b: Seq<char>) -> bool {
    a == b || text_lt(a, b)
}

/// `s` is in increasing text order.
pub open spec fn texts_sorted(s: Seq<Seq<char>>) -> bool {
    forall|i: int, j: int| 0 <= i < j < s.len() ==> text_le(#[trigger] s[i], #[trigger] s[j])
}

proof fn lemma_text_total(a: Seq<char>, b: Seq<char>)
    ensures
        text_lt(a, b) || a == b || text_lt(b, a),
        !(text_lt(a, b) && text_lt(b, a)),
    decreases a.len(),
{
    if a.len() > 0 && b.len() > 0 {
        if a[0] == b[0] {
            lemma_text_total(a.drop_first(), b.drop_first());
            if a.drop_first() == b.drop_first() {
                assert(a =~= b) by {
                    assert forall|i: int| 0 <= i < a.len() implies a[i] == b[i] by {
                        if i > 0 {
                            assert(a[i] == a.drop_first()[i - 1]);
                            assert(b[i] == b.drop_first()[i - 1]);
                        }
                    }
                }
            }
        }
    } else if a.len() == 0 && b.len() == 0 {
        assert(a =~= b);
    }
}

proof fn lemma_text_trans(a: Seq<char>, b: Seq<char>, c: Seq<char>)
    requires
        text_lt(a, b),
        text_lt(b, c),
    ensures
        text_lt(a, c),
    decreases a.len(),
{
    if a.len() > 0 && b.len() > 0 && c.len() > 0 && a[0] == b[0] && b[0] == c[0] {
        lemma_text_trans(a.drop_first(), b.drop_first(), c.drop_first());
    }
}

/// Whether `a` sorts before `b`.
pub fn text_lt_exec(a: &[char], b: &[char]) -> (r: bool)
    ensures
        r == text_lt(a@, b@),
{
    let mut i: usize = 0;
    assert(a@.skip(0) =~= a@);
    assert(b@.skip(0) =~= b@);
    while i < a.len() && i < b.len() && a[i] == b[i]
        invariant
            i <= a@.len(),
            i <= b@.len(),
            text_lt(a@, b@) == text_lt(a@.skip(i as int), b@.skip(i as int)),
        decreases a@.len() - i,
    {
        proof {
            let sa = a@.skip(i as int);
            let sb = b@.skip(i as int);
            assert(sa.drop_first() =~= a@.skip(i as int + 1));
            assert(sb.drop_first() =~= b@.skip(i as int + 1));
            assert(sa[0] == sb[0]);
        }
        i = i + 1;
    }
    proof {
        if i < a@.len() {
            assert(a@.skip(i as int)[0] == a@[i as int]);
        }
        if i < b@.len() {
            assert(b@.skip(i as int)[0] == b@[i as int]);
        }
    }
    if i == a.len() {
        i < b.len()
    } else if i == b.len() {
        false
    } else {
        a[i] < b[i]
    }
}

// ── Raw (file) store ────────────────────────────────────────────────

/// Whether a directory entry of the image directory is a base image:
/// hidden entries and VM clones are not.
pub open spec fn is_base_image(name: Seq<char>) -> bool {
    !starts_with(name, "."@) && !starts_with(name, "clone-"@)
}

/// The base images among directory entries, in entry order.
pub open spec fn base_images(names: Seq<Seq<char>>) -> Seq<Seq<char>>
    decreases names.len(),
{
    if names.len() == 0 {
        Seq::<Seq<char>>::empty()
    } else {
        let rest = base_images(names.drop_last());
        if is_base_image(names.last()) {
            rest.push(names.last())
        } else {
            rest
        }
    }
}

fn insert_sorted(r: &mut Vec<String>, x: String)
    requires
        texts_sorted(views(old(r)@)),
    ensures
        texts_sorted(views(final(r)@)),
        views(final(r)@).to_multiset() == views(old(r)@).to_multiset().insert(x@),
{
    let xc = chars_of(x.as_str());
    let mut p: usize = 0;
    while p < r.len() && !text_lt_exec(&xc, &chars_of(r[p].as_str()))
        invariant
            xc@ == x@,
            p <= r@.len(),
            forall|k: int| 0 <= k < p ==> text_le(#[trigger] views(r@)[k], x@),
        decreases r@.len() - p,
    {
        proof {
            lemma_text_total(x@, r@[p as int]@);
        }
        p = p + 1;
    }
    let ghost before = views(r@);
    r.insert(p, x);
    proof {
        let after = views(r@);
        assert(after =~= before.insert(p as int, x@));
        vstd::seq_lib::to_multiset_insert(before, p as int, x@);
        assert forall|i: int, j: int| 0 <= i < j < after.len() implies text_le(
            #[trigger] after[i],
            #[trigger] after[j],
        ) by {
            if j < p {
                assert(after[i] == before[i] && after[j] == before[j]);
            } else if j == p {
                assert(after[j] == x@ && after[i] == before[i]);
            } else if i == p {
                assert(after[i] == x@ && after[j] == before[j - 1]);
                assert(p < before.len());
                assert(text_lt(x@, before[p as int]));
                if j - 1 > p {
                    assert(text_le(before[p as int], before[j - 1]));
                    if text_lt(before[p as int], before[j - 1]) {
                        lemma_text_trans(x@, before[p as int], before[j - 1]);
                    }
                }
            } else if i < p {
                assert(after[i] == before[i] && after[j] == before[j - 1]);
                assert(text_le(before[i], before[j - 1]));
            } else {
                assert(after[i] == before[i - 1] && after[j] == before[j - 1]);
                assert(text_le(before[i - 1], before[j - 1]));
            }
        }
    }
}

/// The image names the raw store lists from the entries of its image
/// directory: hidden entries and VM clones left out, sorted.
pub fn raw_image_names(names: Vec<String>) -> (r: Vec<String>)
    ensures
        texts_sorted(views(r@)),
        views(r@).to_multiset() == base_images(views(names@)).to_multiset(),
{
    let mut r: Vec<String> = Vec::new();
    let dot = chars_of(".");
    let clone = chars_of("clone-");
    let mut i: usize = 0;
    let ghost all = views(names@);
    while i < names.len()
        invariant
            dot@ == "."@,
            clone@ == "clone-"@,
            all == views(names@),
            i <= names@.len(),
            texts_sorted(views(r@)),
            views(r@).to_multiset() == base_images(all.take(i as int)).to_multiset(),
        decreases names@.len() - i,
    {
        proof {
            assert(all.take(i as int + 1).drop_last() =~= all.take(i as int));
            assert(all.take(i as int + 1).last() == all[i as int]);
        }
        let n = chars_of(names[i].as_str());
        if !starts_with_exec(&n, &dot) && !starts_with_exec(&n, &clone) {
            insert_sorted(&mut r, names[i].clone());
        }
        i = i + 1;
    }
    assert(all.take(i as int) =~= all);
    r
}

// ── ZFS ─────────────────────────────────────────────────────────────

/// The dataset name of a path: the path without one leading `/`.
pub open spec fn dataset_text(path: Seq<char>) -> Seq<char> {
    if path.len() > 0 && path[0] == '/' {
        path.drop_first()
    } else {
        path
    }
}

/// The dataset name of a filesystem path (`/pool/images` names
/// `pool/images`).
pub fn dataset_of(path: &str) -> (s: String)
    ensures
        s@ == dataset_text(path@),
{
    let cs = chars_of(path);
    if cs.len() > 0 && cs[0] == '/' {
        let n = cs.len();
        let t = crate::text::slice_chars(&cs, 1, n);
        assert(t@ =~= path@.drop_first());
        string_from_chars(&t)
    } else {
        String::from_str(path)
    }
}

/// The snapshot `<dataset>@<name>`.
pub fn snapshot_name(dataset: &str, name: &str) -> (s: String)
    ensures
        s@ == dataset@ + "@"@ + name@,
{
    String::from_str(dataset).concat("@").concat(name)
}

/// The image names in a `zfs list -H -o name -r <ds>` listing: every
/// non-empty line other than the dataset itself, by its last
/// `/`-separated part.
pub open spec fn zfs_names_of(ls: Seq<Seq<char>>, ds: Seq<char>) -> Seq<Seq<char>>
    decreases ls.len(),
{
    if ls.len() == 0 {
        Seq::<Seq<char>>::empty()
    } else {
        let rest = zfs_names_of(ls.drop_last(), ds);
        let l = ls.last();
        if l.len() > 0 && l != ds {
            rest.push(after_last(l, "/"@))
        } else {
            rest
        }
    }
}

/// The image names in a ZFS dataset listing.
pub fn zfs_image_names(listing: &str, ds: &str) -> (v: Vec<String>)
    ensures
        views(v@) == zfs_names_of(lines(listing@), ds@),
{
    let cs = chars_of(listing);
    let ls = lines_of(&cs);
    let dsc = chars_of(ds);
    let slash = chars_of("/");
    let mut v: Vec<String> = Vec::new();
    let mut i: usize = 0;
    let ghost all = lines(listing@);
    while i < ls.len()
        invariant
            cs@ == listing@,
            dsc@ == ds@,
            slash@ == "/"@,
            ls@.len() == all.len(),
            all == lines(listing@),
            forall|k: int| 0 <= k < ls@.len() ==> #[trigger] ls@[k]@ == all[k],
            i <= ls@.len(),
            views(v@) == zfs_names_of(all.take(i as int), ds@),
        decreases ls@.len() - i,
    {
        proof {
            assert(all.take(i as int + 1).drop_last() =~= all.take(i as int));
            assert(all.take(i as int + 1).last() == all[i as int]);
        }
        let ghost before = v@;
        let l = &ls[i];
        if l.len() > 0 && !chars_eq(l, &dsc) {
            let name = after_last_exec(l, &slash);
            let s = string_from_chars(&name);
            v.push(s);
            assert(views(v@) =~= views(before).push(after_last(all[i as int], "/"@)));
        }
        i = i + 1;
    }
    assert(all.take(i as int) =~= all);
    v
}

/// The non-empty lines of a listing, in order.
pub open spec fn nonempty_lines(ls: Seq<Seq<char>>) -> Seq<Seq<char>>
    decreases ls.len(),
{
    if ls.len() == 0 {
        Seq::<Seq<char>>::empty()
    } else {
        let rest = nonempty_lines(ls.drop_last());
        if ls.last().len() > 0 {
            rest.push(ls.last())
        } else {
            rest
        }
    }
}

/// The snapshot names in a `zfs list -t snapshot` listing.
pub fn snapshot_names(listing: &str) -> (v: Vec<String>)
    ensures
        views(v@) == nonempty_lines(lines(listing@)),
{
    let cs = chars_of(listing);
    let ls = lines_of(&cs);
    let mut v: Vec<String> = Vec::new();
    let mut i: usize = 0;
    let ghost all = lines(listing@);
    while i < ls.len()
        invariant
            cs@ == listing@,
            ls@.len() == all.len(),
            all == lines(listing@),
            forall|k: int| 0 <= k < ls@.len() ==> #[trigger] ls@[k]@ == all[k],
            i <= ls@.len(),
            views(v@) == nonempty_lines(all.take(i as int)),
        decreases ls@.len() - i,
    {
        proof {
            assert(all.take(i as int + 1).drop_last() =~= all.take(i as int));
            assert(all.take(i as int + 1).last() == all[i as int]);
        }
        let ghost before = v@;
        if ls[i].len() > 0 {
            v.push(string_from_chars(&ls[i]));
            assert(views(v@) =~= views(before).push(all[i as int]));
        }
        i = i + 1;
    }
    assert(all.take(i as int) =~= all);
    v
}

/// The error of a failed `zfs` command: its subcommand and its trimmed
/// error output.
pub fn zfs_error(subcommand: &str, stderr: &str) -> (s: String)
    ensures
        s@ == "zfs "@ + subcommand@ + " failed: "@ + trim(stderr@),
{
    let t = trim_ws(&chars_of(stderr));
    String::from_str("zfs ").concat(subcommand).concat(" failed: ").concat(
        string_from_chars(&t).as_str(),
    )
}

// ── Btrfs ───────────────────────────────────────────────────────────

/// The subvolume paths in a `btrfs subvolume list` listing: of each line
/// that holds `path `, the text after its last `path `.
pub open spec fn subvolume_paths_of(ls: Seq<Seq<char>>) -> Seq<Seq<char>>
    decreases ls.len(),
{
    if ls.len() == 0 {
        Seq::<Seq<char>>::empty()
    } else {
        let rest = subvolume_paths_of(ls.drop_last());
        if last_occurrence(ls.last(), "path "@) is Some {
            rest.push(after_last(ls.last(), "path "@))
        } else {
            rest
        }
    }
}

/// The subvolume paths in a Btrfs listing.
pub fn subvolume_paths(listing: &str) -> (v: Vec<String>)
    ensures
        views(v@) == subvolume_paths_of(lines(listing@)),
{
    let cs = chars_of(listing);
    let ls = lines_of(&cs);
    let marker = chars_of("path ");
    let mut v: Vec<String> = Vec::new();
    let mut i: usize = 0;
    let ghost all = lines(listing@);
    while i < ls.len()
        invariant
            cs@ == listing@,
            marker@ == "path "@,
            ls@.len() == all.len(),
            all == lines(listing@),
            forall|k: int| 0 <= k < ls@.len() ==> #[trigger] ls@[k]@ == all[k],
            i <= ls@.len(),
            views(v@) == subvolume_paths_of(all.take(i as int)),
        decreases ls@.len() - i,
    {
        proof {
            assert(all.take(i as int + 1).drop_last() =~= all.take(i as int));
            assert(all.take(i as int + 1).last() == all[i as int]);
        }
        let ghost before = v@;
        if crate::text::contains_chars(&ls[i], &marker) {
            proof {
                lemma_occurs_iff_last(all[i as int], "path "@);
            }
            let p = after_last_exec(&ls[i], &marker);
            v.push(string_from_chars(&p));
            assert(views(v@) =~= views(before).push(after_last(all[i as int], "path "@)));
        } else {
            proof {
                lemma_occurs_iff_last(all[i as int], "path "@);
            }
        }
        i = i + 1;
    }
    assert(all.take(i as int) =~= all);
    v
}

proof fn lemma_occurs_iff_last(s: Seq<char>, t: Seq<char>)
    ensures
        crate::text::contains_text(s, t) <==> last_occurrence(s, t) is Some,
    decreases s.len(),
{
    if s.len() >= t.len() {
        if s.subrange(s.len() - t.len(), s.len() as int) == t {
            let i = s.len() - t.len();
            assert(s.subrange(i, i + t.len()) == t);
            assert(crate::text::contains_text(s, t));
        } else if s.len() > 0 {
            lemma_occurs_iff_last(s.drop_last(), t);
            if crate::text::contains_text(s, t) {
                let i = choose|i: int|
                    0 <= i && i + t.len() <= s.len() && #[trigger] s.subrange(i, i + t.len()) == t;
                assert(i + t.len() < s.len());
                assert(s.drop_last().subrange(i, i + t.len()) =~= s.subrange(i, i + t.len()));
            }
            if crate::text::contains_text(s.drop_last(), t) {
                let i = choose|i: int|
                    0 <= i && i + t.len() <= s.drop_last().len() && #[trigger] s.drop_last().subrange(
                        i,
                        i + t.len(),
                    ) == t;
                assert(s.drop_last().subrange(i, i + t.len()) =~= s.subrange(i, i + t.len()));
            }
        } else {
            assert(t.len() == 0);
            assert(s.subrange(0, 0) =~= t);
        }
    } else {
        if crate::text::contains_text(s, t) {
            let i = choose|i: int|
                0 <= i && i + t.len() <= s.len() && #[trigger] s.subrange(i, i + t.len()) == t;
        }
    }
}

} // verus!

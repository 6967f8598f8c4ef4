use crate::text::{chars_of, ends_with, has_prefix, has_suffix, starts_with};
use core::cmp::Ordering;
use vstd::prelude::*;
use vstd::string::*;

verus! {

/// File names with this suffix are descriptor files: per-asset configuration, never served.
pub const CONFIG_SUFFIX: &'static str = ".minicdn";

/// The characters of [`CONFIG_SUFFIX`].
pub open spec fn config_suffix() -> Seq<char> {
    seq!['.', 'm', 'i', 'n', 'i', 'c', 'd', 'n']
}

pub(crate) proof fn lemma_config_suffix()
    ensures
        CONFIG_SUFFIX@ == config_suffix(),
{
    reveal_strlit(".minicdn");
    assert(CONFIG_SUFFIX@ =~= config_suffix());
}

/// The path names a descriptor file.
pub open spec fn is_descriptor_path(p: Seq<char>) -> bool {
    has_suffix(p, config_suffix())
}

/// The path starts at a separator, as an absolute path would.
pub open spec fn is_rooted(p: Seq<char>) -> bool {
    p.len() > 0 && p[0] == '/'
}

/// A `..` segment of the path starts at index `i`.
pub open spec fn parent_segment_at(p: Seq<char>, i: int) -> bool {
    &&& 0 <= i
    &&& i + 2 <= p.len()
    &&& p[i] == '.'
    &&& p[i + 1] == '.'
    &&& (i == 0 || p[i - 1] == '/')
    &&& (i + 2 == p.len() || p[i + 2] == '/')
}

/// Some segment of the path is `..`.
pub open spec fn has_parent_segment(p: Seq<char>) -> bool {
    exists|i: int| parent_segment_at(p, i)
}

/// A requested path that a store may answer: it is relative, never climbs out through a
/// `..` segment, and does not name a descriptor file.
pub open spec fn is_servable(p: Seq<char>) -> bool {
    !is_descriptor_path(p) && !is_rooted(p) && !has_parent_segment(p)
}

/// Decides whether a requested logical path may be answered at all.
pub fn is_servable_path(path: &str) -> (r: bool)
    ensures
        r == is_servable(path@),
{
    proof {
        lemma_config_suffix();
    }
    if ends_with(path, CONFIG_SUFFIX) {
        return false;
    }
    let c = chars_of(path);
    let n = c.len();
    if n > 0 && c[0] == '/' {
        return false;
    }
    let mut i: usize = 0;
    while n > 0 && i < n - 1
        invariant
            c@ == path@,
            n == c@.len(),
            i <= n,
            forall|j: int| 0 <= j < i ==> !parent_segment_at(c@, j),
        decreases n - i,
    {
        if c[i] == '.' && c[i + 1] == '.' && (i == 0 || c[i - 1] == '/') && (i + 2 == n || c[i
            + 2] == '/') {
            assert(parent_segment_at(path@, i as int));
            return false;
        }
        i += 1;
    }
    assert forall|j: int| !parent_segment_at(path@, j) by {
        if 0 <= j < i {
        }
    }
    true
}

/// The path that `rel` names under `root`: `rel` is always taken relative to `root`.
pub open spec fn joined(root: Seq<char>, rel: Seq<char>) -> Seq<char> {
    if root.len() == 0 {
        rel
    } else if root.last() == '/' {
        root + rel
    } else {
        root + seq!['/'] + rel
    }
}

/// Joins a relative path onto a root directory.
pub fn join_path(root: &str, rel: &str) -> (r: String)
    ensures
        r@ == joined(root@, rel@),
{
    let n = root.unicode_len();
    if n == 0 {
        return rel.to_owned();
    }
    let mut out = root.to_owned();
    if root.get_char(n - 1) != '/' {
        proof {
            reveal_strlit("/");
        }
        out.append("/");
    }
    out.append(rel);
    out
}

/// Whether a canonical path lies under a canonical root, compared as text.
pub fn is_within_root(canonical_path: &str, canonical_root: &str) -> (r: bool)
    ensures
        r == has_prefix(canonical_path@, canonical_root@),
{
    starts_with(canonical_path, canonical_root)
}

/// The path with every backslash turned into a forward slash.
pub open spec fn forward_slashes(p: Seq<char>) -> Seq<char> {
    Seq::new(p.len(), |i: int| if p[i] == '\\' { '/' } else { p[i] })
}

/// The logical path of a file found under the root: separated by `/` whatever the host's
/// separator is (`backslash_separated` says the host's is `\`).
pub fn logical_path(relative: &str, backslash_separated: bool) -> (r: String)
    ensures
        r@ == (if backslash_separated {
            forward_slashes(relative@)
        } else {
            relative@
        }),
{
    if !backslash_separated {
        return relative.to_owned();
    }
    let c = chars_of(relative);
    let n = c.len();
    let mut out = String::new();
    let mut i: usize = 0;
    while i < n
        invariant
            c@ == relative@,
            n == c@.len(),
            i <= n,
            out@ == forward_slashes(relative@.subrange(0, i as int)),
        decreases n - i,
    {
        if c[i] == '\\' {
            proof {
                reveal_strlit("/");
            }
            out.append("/");
        } else {
            out.append(relative.substring_char(i, i + 1));
        }
        i += 1;
        assert(out@ =~= forward_slashes(relative@.subrange(0, i as int)));
    }
    assert(relative@.subrange(0, n as int) =~= relative@);
    out
}

/// The name of the asset that a descriptor path configures: the path without the suffix.
pub open spec fn descriptor_target_of(p: Seq<char>) -> Seq<char> {
    p.subrange(0, p.len() - config_suffix().len())
}

/// For a descriptor file, the name of the asset it configures; `None` for any other file.
pub fn descriptor_target(relative: &str) -> (r: Option<String>)
    ensures
        r is Some <==> is_descriptor_path(relative@),
        r matches Some(name) ==> name@ == descriptor_target_of(relative@),
{
    proof {
        lemma_config_suffix();
    }
    if !ends_with(relative, CONFIG_SUFFIX) {
        return None;
    }
    let n = relative.unicode_len();
    Some(relative.substring_char(0, n - 8).to_owned())
}

/// Where the file name starts: just past the last `/`, or at 0.
pub open spec fn name_start(p: Seq<char>) -> int
    decreases p.len(),
{
    if p.len() == 0 {
        0
    } else if p.last() == '/' {
        p.len() as int
    } else {
        name_start(p.drop_last())
    }
}

/// The first `.` at or after `i`, or the length of `p` when there is none.
pub open spec fn dot_from(p: Seq<char>, i: int) -> int
    decreases p.len() - i,
{
    if i >= p.len() {
        p.len() as int
    } else if p[i] == '.' {
        i
    } else {
        dot_from(p, i + 1)
    }
}

/// The stem of an asset path: the path with its file name cut at the name's first `.`.
pub open spec fn stem(p: Seq<char>) -> Seq<char> {
    p.subrange(0, dot_from(p, name_start(p)))
}

/// The stem under which an asset looks up its descriptor.
pub fn asset_stem(relative: &str) -> (r: String)
    ensures
        r@ == stem(relative@),
{
    let c = chars_of(relative);
    let n = c.len();
    let mut start: usize = n;
    assert(relative@.subrange(0, n as int) =~= relative@);
    while start > 0 && c[start - 1] != '/'
        invariant
            c@ == relative@,
            n == c@.len(),
            start <= n,
            name_start(relative@) == name_start(relative@.subrange(0, start as int)),
        decreases start,
    {
        assert(relative@.subrange(0, start as int).drop_last() =~= relative@.subrange(
            0,
            start - 1,
        ));
        start -= 1;
    }
    assert(name_start(relative@) == start);
    let mut k: usize = start;
    while k < n && c[k] != '.'
        invariant
            c@ == relative@,
            n == c@.len(),
            start <= k <= n,
            dot_from(relative@, start as int) == dot_from(relative@, k as int),
        decreases n - k,
    {
        k += 1;
    }
    relative.substring_char(0, k).to_owned()
}

/// Orders two texts by code point, the first difference deciding and a proper prefix first.
/// On valid UTF-8 this is the order of their bytes.
pub open spec fn lex_order(a: Seq<char>, b: Seq<char>) -> Ordering
    decreases a.len(),
{
    if a.len() == 0 {
        if b.len() == 0 {
            Ordering::Equal
        } else {
            Ordering::Less
        }
    } else if b.len() == 0 {
        Ordering::Greater
    } else if a[0] < b[0] {
        Ordering::Less
    } else if a[0] > b[0] {
        Ordering::Greater
    } else {
        lex_order(a.drop_first(), b.drop_first())
    }
}

/// The order of two file names within one directory of a scan: descriptor files first,
/// then by name.
pub open spec fn scan_order_of(a: Seq<char>, b: Seq<char>) -> Ordering {
    if is_descriptor_path(a) && !is_descriptor_path(b) {
        Ordering::Less
    } else if !is_descriptor_path(a) && is_descriptor_path(b) {
        Ordering::Greater
    } else {
        lex_order(a, b)
    }
}

/// Compares two file names of one directory for the scan: descriptor files come before the
/// files they configure, and names decide the rest.
pub fn scan_order(a_name: &str, b_name: &str) -> (r: Ordering)
    ensures
        r == scan_order_of(a_name@, b_name@),
{
    proof {
        lemma_config_suffix();
    }
    let a_desc = ends_with(a_name, CONFIG_SUFFIX);
    let b_desc = ends_with(b_name, CONFIG_SUFFIX);
    if a_desc && !b_desc {
        return Ordering::Less;
    }
    if !a_desc && b_desc {
        return Ordering::Greater;
    }
    let a = chars_of(a_name);
    let b = chars_of(b_name);
    let mut i: usize = 0;
    assert(a@.skip(0) =~= a@);
    assert(b@.skip(0) =~= b@);
    while i < a.len() && i < b.len() && a[i] == b[i]
        invariant
            a@ == a_name@,
            b@ == b_name@,
            i <= a@.len(),
            i <= b@.len(),
            lex_order(a@, b@) == lex_order(a@.skip(i as int), b@.skip(i as int)),
        decreases a@.len() - i,
    {
        assert(a@.skip(i as int).drop_first() =~= a@.skip(i + 1));
        assert(b@.skip(i as int).drop_first() =~= b@.skip(i + 1));
        i += 1;
    }
    assert(a@.skip(i as int).len() == a@.len() - i);
    assert(b@.skip(i as int).len() == b@.len() - i);
    if i < a.len() && i < b.len() {
        assert(a@.skip(i as int)[0] == a@[i as int]);
        assert(b@.skip(i as int)[0] == b@[i as int]);
    }
    if i == a.len() {
        if i == b.len() {
            Ordering::Equal
        } else {
            Ordering::Less
        }
    } else if i == b.len() {
        Ordering::Greater
    } else if a[i] < b[i] {
        Ordering::Less
    } else {
        Ordering::Greater
    }
}

} // verus!

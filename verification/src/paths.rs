//! A plain-string model of filesystem paths.
//!
//! Paths are UTF-8 strings whose segments are separated by `/`. The functions
//! here give the filter engine everything it needs: exact equality, stripping
//! a working-directory prefix at a segment boundary, the last path segment,
//! the extension of a file name, and the parent directory of a path.

use vstd::prelude::*;

verus! {

/// The path `p` begins with the segments of `dir`: either `dir` is empty, or
/// `p` equals `dir`, or `dir` is a proper prefix of `p` and the split falls on
/// a segment boundary.
pub open spec fn strip_ok(p: Seq<char>, dir: Seq<char>) -> bool {
    if dir.len() == 0 {
        true
    } else if p == dir {
        true
    } else {
        dir.is_prefix_of(p) && p.len() > dir.len() && (dir.last() == '/' || p[dir.len() as int]
            == '/')
    }
}

/// What remains of `p` after the prefix `dir` and the separating `/` are
/// removed. Meaningful only when `strip_ok(p, dir)` holds.
pub open spec fn rel_of(p: Seq<char>, dir: Seq<char>) -> Seq<char> {
    if dir.len() == 0 {
        p
    } else if p == dir {
        Seq::<char>::empty()
    } else if dir.last() == '/' {
        p.subrange(dir.len() as int, p.len() as int)
    } else {
        p.subrange(dir.len() as int + 1, p.len() as int)
    }
}

/// The characters after the last `/` of `s` (all of `s` when it has no `/`).
pub open spec fn after_last_slash(s: Seq<char>) -> Seq<char>
    decreases s.len(),
{
    if s.len() == 0 {
        s
    } else if s.last() == '/' {
        Seq::<char>::empty()
    } else {
        after_last_slash(s.drop_last()).push(s.last())
    }
}

/// The characters after the first `.` of `seg`, if `seg` has a `.` at all.
pub open spec fn after_first_dot(seg: Seq<char>) -> Option<Seq<char>>
    decreases seg.len(),
{
    if seg.len() == 0 {
        None
    } else if seg.first() == '.' {
        Some(seg.subrange(1, seg.len() as int))
    } else {
        after_first_dot(seg.drop_first())
    }
}

/// The extension of a file-name segment: everything after the first `.`. A
/// segment without a `.` counts as its own extension, so a bare name such as
/// `Makefile` can be selected by naming it, and a dotfile such as `.env`
/// yields `env`.
pub open spec fn ext_of(seg: Seq<char>) -> Seq<char> {
    match after_first_dot(seg) {
        Some(e) => e,
        None => seg,
    }
}

/// The index right after the last `/` of `s`, or `0` when `s` has no `/`.
pub open spec fn slash_boundary(s: Seq<char>) -> int
    decreases s.len(),
{
    if s.len() == 0 {
        0
    } else if s.last() == '/' {
        s.len() as int
    } else {
        slash_boundary(s.drop_last())
    }
}

/// The parent directory of a path: the characters before the last `/`, except
/// that a path directly under the root keeps the `/` itself as its parent. A
/// path without a `/`, and the bare root, have no parent.
pub open spec fn parent_seq(s: Seq<char>) -> Option<Seq<char>> {
    let k = slash_boundary(s);
    if k == 0 {
        None
    } else if k == 1 {
        if s.len() == 1 {
            None
        } else {
            Some(s.subrange(0, 1))
        }
    } else {
        Some(s.subrange(0, k - 1))
    }
}

proof fn lemma_slash_boundary_at(s: Seq<char>, k: int)
    requires
        0 <= k <= s.len(),
        k == 0 || s[k - 1] == '/',
        forall|j: int| k <= j < s.len() ==> s[j] != '/',
    ensures
        slash_boundary(s) == k,
    decreases s.len(),
{
    if s.len() == 0 {
    } else if s.last() == '/' {
        assert(k == s.len());
    } else {
        assert(k < s.len());
        lemma_slash_boundary_at(s.drop_last(), k);
    }
}

/// The boundary after the last slash is never past the end of the string.
pub proof fn lemma_slash_boundary_le_len(s: Seq<char>)
    ensures
        0 <= slash_boundary(s) <= s.len(),
    decreases s.len(),
{
    if s.len() == 0 {
    } else if s.last() == '/' {
    } else {
        lemma_slash_boundary_le_len(s.drop_last());
    }
}

/// A parent path is strictly shorter than the path it is the parent of.
pub proof fn lemma_parent_shorter(s: Seq<char>)
    ensures
        parent_seq(s) is Some ==> parent_seq(s)->Some_0.len() < s.len(),
{
    lemma_slash_boundary_le_len(s);
}

/// Exact character-for-character equality of two strings.
pub fn str_eq(a: &str, b: &str) -> (r: bool)
    ensures
        r == (a@ == b@),
{
    let alen = a.unicode_len();
    let blen = b.unicode_len();
    if alen != blen {
        proof {
            assert(a@ != b@) by {
                assert(a@.len() != b@.len());
            }
        }
        return false;
    }
    let mut i: usize = 0;
    while i < alen
        invariant
            alen == a@.len(),
            alen == b@.len(),
            i <= alen,
            forall|j: int| 0 <= j < i ==> a@[j] == b@[j],
        decreases alen - i,
    {
        if a.get_char(i) != b.get_char(i) {
            return false;
        }
        i += 1;
    }
    proof {
        assert(a@ =~= b@);
    }
    true
}

/// Whether `p` begins with the characters of `pre`.
pub fn str_starts_with(p: &str, pre: &str) -> (r: bool)
    ensures
        r == pre@.is_prefix_of(p@),
{
    let plen = p.unicode_len();
    let prelen = pre.unicode_len();
    if prelen > plen {
        return false;
    }
    let mut i: usize = 0;
    while i < prelen
        invariant
            plen == p@.len(),
            prelen == pre@.len(),
            prelen <= plen,
            i <= prelen,
            forall|j: int| 0 <= j < i ==> p@[j] == pre@[j],
        decreases prelen - i,
    {
        if p.get_char(i) != pre.get_char(i) {
            proof {
                assert(!pre@.is_prefix_of(p@)) by {
                    assert(p@.subrange(0, prelen as int)[i as int] != pre@[i as int]);
                }
            }
            return false;
        }
        i += 1;
    }
    proof {
        assert(p@.subrange(0, prelen as int) =~= pre@);
    }
    true
}

/// Strip the working-directory prefix `dir` from `p`, at a segment boundary,
/// the way the filter engine relativizes event paths.
pub fn strip_prefix_rel<'a>(p: &'a str, dir: &str) -> (r: Option<&'a str>)
    ensures
        r is Some <==> strip_ok(p@, dir@),
        r is Some ==> r->Some_0@ == rel_of(p@, dir@),
{
    let plen = p.unicode_len();
    let dlen = dir.unicode_len();
    if dlen == 0 {
        proof {
            assert(dir@.len() == 0);
        }
        return Some(p);
    }
    if str_eq(p, dir) {
        let empty = p.substring_char(plen, plen);
        proof {
            assert(empty@ =~= rel_of(p@, dir@));
        }
        return Some(empty);
    }
    if !str_starts_with(p, dir) {
        return None;
    }
    if dir.get_char(dlen - 1) == '/' {
        proof {
            if plen == dlen {
                assert(p@.subrange(0, dlen as int) =~= p@);
                assert(p@ =~= dir@);
            }
        }
        return Some(p.substring_char(dlen, plen));
    }
    if plen > dlen && p.get_char(dlen) == '/' {
        return Some(p.substring_char(dlen + 1, plen));
    }
    proof {
        if plen == dlen {
            assert(p@.subrange(0, dlen as int) =~= p@);
            assert(p@ =~= dir@);
        }
    }
    None
}

/// The position right after the last `/` of `s`, or `0` when `s` has no `/`.
fn slash_boundary_pos(s: &str) -> (k: usize)
    ensures
        k <= s@.len(),
        k == 0 || s@[k - 1] == '/',
        forall|j: int| k <= j < s@.len() ==> s@[j] != '/',
{
    let len = s.unicode_len();
    let mut k: usize = len;
    loop
        invariant
            len == s@.len(),
            k <= len,
            forall|j: int| k <= j < len ==> s@[j] != '/',
        decreases k,
    {
        if k == 0 {
            return 0;
        }
        if s.get_char(k - 1) == '/' {
            return k;
        }
        k -= 1;
    }
}

proof fn lemma_after_last_slash_from(s: Seq<char>, k: int)
    requires
        0 <= k <= s.len(),
        k == 0 || s[k - 1] == '/',
        forall|j: int| k <= j < s.len() ==> s[j] != '/',
    ensures
        after_last_slash(s) == s.subrange(k, s.len() as int),
    decreases s.len(),
{
    if s.len() == 0 {
        assert(after_last_slash(s) =~= s.subrange(k, s.len() as int));
    } else if s.last() == '/' {
        assert(k == s.len());
        assert(after_last_slash(s) =~= s.subrange(k, s.len() as int));
    } else {
        assert(k < s.len());
        lemma_after_last_slash_from(s.drop_last(), k);
        assert(s.drop_last().subrange(k, s.len() - 1) =~= s.subrange(k, s.len() - 1));
        assert(after_last_slash(s) =~= s.subrange(k, s.len() as int));
    }
}

/// The last segment of a path: the characters after its last `/`.
pub fn last_segment<'a>(s: &'a str) -> (r: &'a str)
    ensures
        r@ == after_last_slash(s@),
{
    let len = s.unicode_len();
    let k = slash_boundary_pos(s);
    let r = s.substring_char(k, len);
    proof {
        lemma_after_last_slash_from(s@, k as int);
    }
    r
}

proof fn lemma_after_first_dot_at(seg: Seq<char>, k: int)
    requires
        0 <= k <= seg.len(),
        forall|j: int| 0 <= j < k ==> seg[j] != '.',
    ensures
        k < seg.len() && seg[k] == '.' ==> after_first_dot(seg) == Some(
            seg.subrange(k + 1, seg.len() as int),
        ),
        k == seg.len() ==> after_first_dot(seg) is None,
    decreases k,
{
    if k > 0 {
        assert(seg.len() > 0 && seg.first() != '.');
        lemma_after_first_dot_at(seg.drop_first(), k - 1);
        if k < seg.len() && seg[k] == '.' {
            assert(seg.drop_first()[k - 1] == '.');
            assert(seg.drop_first().subrange(k, seg.len() - 1) =~= seg.subrange(
                k + 1,
                seg.len() as int,
            ));
        }
    }
}

proof fn lemma_after_first_dot_none(seg: Seq<char>)
    requires
        forall|j: int| 0 <= j < seg.len() ==> seg[j] != '.',
    ensures
        after_first_dot(seg) is None,
{
    lemma_after_first_dot_at(seg, seg.len() as int);
}

/// The extension of a file-name segment, per `ext_of`.
pub fn extension_of<'a>(seg: &'a str) -> (r: &'a str)
    ensures
        r@ == ext_of(seg@),
{
    let len = seg.unicode_len();
    let mut k: usize = 0;
    while k < len
        invariant
            len == seg@.len(),
            k <= len,
            forall|j: int| 0 <= j < k ==> seg@[j] != '.',
        decreases len - k,
    {
        if seg.get_char(k) == '.' {
            let r = seg.substring_char(k + 1, len);
            proof {
                lemma_after_first_dot_at(seg@, k as int);
            }
            return r;
        }
        k += 1;
    }
    proof {
        lemma_after_first_dot_none(seg@);
    }
    seg
}

/// The parent directory of `s`, per `parent_seq`.
pub fn parent_dir<'a>(s: &'a str) -> (r: Option<&'a str>)
    ensures
        r is Some <==> parent_seq(s@) is Some,
        r is Some ==> r->Some_0@ == parent_seq(s@)->Some_0,
        r is Some ==> r->Some_0@.len() < s@.len(),
{
    let len = s.unicode_len();
    let k = slash_boundary_pos(s);
    proof {
        lemma_slash_boundary_at(s@, k as int);
    }
    if k == 0 {
        None
    } else if k == 1 {
        if len == 1 {
            None
        } else {
            Some(s.substring_char(0, 1))
        }
    } else {
        Some(s.substring_char(0, k - 1))
    }
}

/// Whether some string of `v` has exactly the characters of `x`.
pub fn contains_str(v: &Vec<String>, x: &str) -> (r: bool)
    ensures
        r == v.deep_view().contains(x@),
{
    let mut i: usize = 0;
    while i < v.len()
        invariant
            forall|j: int| 0 <= j < i ==> v.deep_view()[j] != x@,
            i <= v.len(),
            v.deep_view().len() == v.len(),
        decreases v.len() - i,
    {
        proof {
            assert(v.deep_view()[i as int] == v@[i as int]@);
        }
        if str_eq(v[i].as_str(), x) {
            proof {
                assert(v.deep_view().contains(x@)) by {
                    assert(v.deep_view()[i as int] == x@);
                }
            }
            return true;
        }
        i += 1;
    }
    proof {
        assert(!v.deep_view().contains(x@)) by {
            assert(forall|j: int| 0 <= j < v.deep_view().len() ==> v.deep_view()[j] != x@);
        }
    }
    false
}

} // verus!

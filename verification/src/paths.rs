//! Verified path-string helpers: locating the final segment of a
//! slash-separated path, replacing or stripping its extension, and
//! trimming separator characters. Download paths are plain strings, so
//! these stand in for filesystem path manipulation.

use vstd::prelude::*;

verus! {

/// The index just after the last `'/'` of `s`, or 0 when `s` holds
/// none: where the final path segment starts.
pub open spec fn seg_start(s: Seq<char>) -> int
    decreases s.len(),
{
    if s.len() == 0 {
        0
    } else if s[s.len() - 1] == '/' {
        s.len() as int
    } else {
        seg_start(s.drop_last())
    }
}

/// `seg_start` lands within the string.
pub proof fn lemma_seg_start_bounds(s: Seq<char>)
    ensures
        0 <= seg_start(s) <= s.len(),
    decreases s.len(),
{
    if s.len() > 0 && s[s.len() - 1] != '/' {
        lemma_seg_start_bounds(s.drop_last());
    }
}

/// Appending characters that are not `'/'` does not move the start of
/// the final segment.
pub proof fn lemma_seg_start_append(s: Seq<char>, t: Seq<char>)
    requires
        forall|i: int| 0 <= i < t.len() ==> t[i] != '/',
    ensures
        seg_start(s + t) == seg_start(s),
    decreases t.len(),
{
    if t.len() == 0 {
        assert(s + t =~= s);
    } else {
        assert((s + t).drop_last() =~= s + t.drop_last());
        lemma_seg_start_append(s, t.drop_last());
    }
}

/// The index of the last `'.'` of `s` that lies strictly after the
/// boundary `b`, or -1 when there is none. With `b` the start of the
/// final segment this is where an extension begins: a dot at the very
/// start of the segment (a hidden file) does not count.
pub open spec fn last_dot_after(s: Seq<char>, b: int) -> int
    decreases s.len(),
{
    if s.len() == 0 || s.len() - 1 <= b {
        -1
    } else if s[s.len() - 1] == '.' {
        s.len() - 1
    } else {
        last_dot_after(s.drop_last(), b)
    }
}

/// The stem of a path: everything up to the extension dot of its final
/// segment, or the whole path when that segment has no extension.
pub open spec fn spec_stem(s: Seq<char>) -> Seq<char> {
    let d = last_dot_after(s, seg_start(s));
    if d >= 0 {
        s.take(d)
    } else {
        s
    }
}

/// The path with its extension replaced: the stem alone for an empty
/// new extension, else the stem, a dot and the new extension.
pub open spec fn spec_with_ext(s: Seq<char>, ext: Seq<char>) -> Seq<char> {
    if ext.len() == 0 {
        spec_stem(s)
    } else {
        spec_stem(s) + "."@ + ext
    }
}

/// `s` with every trailing occurrence of `c` removed.
pub open spec fn strip_trailing(s: Seq<char>, c: char) -> Seq<char>
    decreases s.len(),
{
    if s.len() > 0 && s[s.len() - 1] == c {
        strip_trailing(s.drop_last(), c)
    } else {
        s
    }
}

/// `s` with every leading occurrence of `c` removed.
pub open spec fn strip_leading(s: Seq<char>, c: char) -> Seq<char>
    decreases s.len(),
{
    if s.len() > 0 && s[0] == c {
        strip_leading(s.subrange(1, s.len() as int), c)
    } else {
        s
    }
}

/// Finds where the final path segment starts, specified by [`seg_start`].
fn find_seg_start(s: &str) -> (r: usize)
    ensures
        r == seg_start(s@),
        r <= s@.len(),
{
    let n = s.unicode_len();
    proof {
        assert(s@.take(n as int) =~= s@);
    }
    let mut i: usize = n;
    while i > 0
        invariant
            i <= n,
            n == s@.len(),
            seg_start(s@) == seg_start(s@.take(i as int)),
        decreases i,
    {
        if s.get_char(i - 1) == '/' {
            proof {
                assert(s@.take(i as int)[i - 1] == s@[i - 1]);
                lemma_seg_start_bounds(s@);
            }
            return i;
        }
        proof {
            assert(s@.take(i as int).drop_last() =~= s@.take(i - 1));
        }
        i -= 1;
    }
    proof {
        assert(s@.take(0) =~= Seq::<char>::empty());
    }
    0
}

/// Finds the extension dot of the final segment starting at `b`,
/// specified by [`last_dot_after`].
fn find_last_dot(s: &str, b: usize) -> (r: Option<usize>)
    requires
        b <= s@.len(),
    ensures
        match r {
            Some(d) => last_dot_after(s@, b as int) == d as int && d < s@.len(),
            None => last_dot_after(s@, b as int) == -1,
        },
{
    let n = s.unicode_len();
    if n <= b {
        return None;
    }
    proof {
        assert(s@.take(n as int) =~= s@);
    }
    let mut i: usize = n;
    while i > b + 1
        invariant
            i <= n,
            n == s@.len(),
            b + 1 <= n,
            last_dot_after(s@, b as int) == last_dot_after(s@.take(i as int), b as int),
        decreases i,
    {
        if s.get_char(i - 1) == '.' {
            proof {
                assert(s@.take(i as int)[i - 1] == s@[i - 1]);
            }
            return Some(i - 1);
        }
        proof {
            assert(s@.take(i as int).drop_last() =~= s@.take(i - 1));
        }
        i -= 1;
    }
    None
}

/// The stem of a path, specified by [`spec_stem`].
pub fn stem_of(s: &str) -> (r: String)
    ensures
        r@ == spec_stem(s@),
{
    let b = find_seg_start(s);
    match find_last_dot(s, b) {
        Some(d) => {
            let stem = s.substring_char(0, d);
            proof {
                assert(stem@ =~= spec_stem(s@));
            }
            stem.to_owned()
        },
        None => s.to_owned(),
    }
}

/// The path with its extension replaced, specified by [`spec_with_ext`].
pub fn with_extension(s: &str, ext: &str) -> (r: String)
    ensures
        r@ == spec_with_ext(s@, ext@),
{
    let mut r = stem_of(s);
    if ext.unicode_len() > 0 {
        r.append(".");
        r.append(ext);
        proof {
            assert(r@ =~= spec_with_ext(s@, ext@));
        }
        r
    } else {
        r
    }
}

/// Removes every trailing occurrence of `c`, specified by
/// [`strip_trailing`].
pub fn trim_trailing(s: &str, c: char) -> (r: String)
    ensures
        r@ == strip_trailing(s@, c),
{
    let n = s.unicode_len();
    proof {
        assert(s@.take(n as int) =~= s@);
    }
    let mut end: usize = n;
    while end > 0 && s.get_char(end - 1) == c
        invariant
            end <= n,
            n == s@.len(),
            strip_trailing(s@, c) == strip_trailing(s@.take(end as int), c),
        decreases end,
    {
        proof {
            assert(s@.take(end as int)[end - 1] == s@[end - 1]);
            assert(s@.take(end as int).drop_last() =~= s@.take(end - 1));
        }
        end -= 1;
    }
    let kept = s.substring_char(0, end);
    proof {
        if end > 0 {
            assert(s@.take(end as int)[end - 1] == s@[end - 1]);
        }
        assert(kept@ =~= strip_trailing(s@, c));
    }
    kept.to_owned()
}

/// Removes every leading occurrence of `c`, specified by
/// [`strip_leading`].
pub fn trim_leading(s: &str, c: char) -> (r: String)
    ensures
        r@ == strip_leading(s@, c),
{
    let n = s.unicode_len();
    proof {
        assert(s@.subrange(0, n as int) =~= s@);
    }
    let mut start: usize = 0;
    while start < n && s.get_char(start) == c
        invariant
            start <= n,
            n == s@.len(),
            strip_leading(s@, c) == strip_leading(s@.subrange(start as int, n as int), c),
        decreases n - start,
    {
        proof {
            let cur = s@.subrange(start as int, n as int);
            assert(cur[0] == s@[start as int]);
            assert(cur.subrange(1, cur.len() as int) =~= s@.subrange(start + 1, n as int));
        }
        start += 1;
    }
    let kept = s.substring_char(start, n);
    proof {
        let cur = s@.subrange(start as int, n as int);
        if start < n {
            assert(cur[0] == s@[start as int]);
        }
        assert(kept@ =~= strip_leading(s@, c));
    }
    kept.to_owned()
}

} // verus!

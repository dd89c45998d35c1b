//! Glob patterns over slash-separated paths.
//!
//! A pattern is split into segments like a path. Within a segment, `*`
//! matches any run of characters; a segment consisting of exactly `**`
//! matches any number of whole segments, which makes the pattern
//! recursive. An entry without `*` names one file literally.

use vstd::prelude::*;
use crate::paths::segments_of;
use crate::paths::split_segments;

verus! {

/// One pattern segment against one path segment; `*` matches any run
/// of characters within the segment.
pub open spec fn seg_match(p: Seq<char>, s: Seq<char>) -> bool
    decreases p.len() + s.len(),
{
    if p.len() == 0 {
        s.len() == 0
    } else if p[0] == '*' {
        seg_match(p.skip(1), s) || (s.len() > 0 && seg_match(p, s.skip(1)))
    } else {
        s.len() > 0 && p[0] == s[0] && seg_match(p.skip(1), s.skip(1))
    }
}

/// The segment that matches any number of whole path segments.
pub open spec fn deep_seg() -> Seq<char> {
    seq!['*', '*']
}

/// Pattern segments against path segments; a `**` segment may swallow
/// zero or more path segments.
pub open spec fn segs_match(ps: Seq<Seq<char>>, ss: Seq<Seq<char>>) -> bool
    decreases ps.len() + ss.len(),
{
    if ps.len() == 0 {
        ss.len() == 0
    } else if ps[0] == deep_seg() {
        segs_match(ps.skip(1), ss) || (ss.len() > 0 && segs_match(ps, ss.skip(1)))
    } else {
        ss.len() > 0 && seg_match(ps[0], ss[0]) && segs_match(ps.skip(1), ss.skip(1))
    }
}

/// Whole-pattern match: both sides split on `/`.
pub open spec fn glob_matches(pat: Seq<char>, path: Seq<char>) -> bool {
    segs_match(segments_of(pat), segments_of(path))
}

/// A pattern with no `*` names one path literally.
pub open spec fn has_wildcard(pat: Seq<char>) -> bool {
    exists|i: int| 0 <= i < pat.len() && pat[i] == '*'
}

fn seg_match_from(p: &str, pi: usize, s: &str, si: usize) -> (r: bool)
    requires
        pi <= p@.len(),
        si <= s@.len(),
    ensures
        r == seg_match(p@.skip(pi as int), s@.skip(si as int)),
    decreases p@.len() - pi + s@.len() - si,
{
    let pn: usize = p.unicode_len();
    let sn: usize = s.unicode_len();
    proof {
        if pi < pn {
            assert(p@.skip(pi as int)[0] == p@[pi as int]);
            assert(p@.skip(pi as int).skip(1) =~= p@.skip(pi as int + 1));
        }
        if si < sn {
            assert(s@.skip(si as int)[0] == s@[si as int]);
            assert(s@.skip(si as int).skip(1) =~= s@.skip(si as int + 1));
        }
        if pi == pn {
            assert(p@.skip(pi as int) =~= Seq::<char>::empty());
        }
        if si == sn {
            assert(s@.skip(si as int) =~= Seq::<char>::empty());
        }
    }
    if pi == pn {
        si == sn
    } else if p.get_char(pi) == '*' {
        if seg_match_from(p, pi + 1, s, si) {
            true
        } else if si < sn {
            seg_match_from(p, pi, s, si + 1)
        } else {
            false
        }
    } else {
        if si < sn && p.get_char(pi) == s.get_char(si) {
            seg_match_from(p, pi + 1, s, si + 1)
        } else {
            false
        }
    }
}

fn is_deep_segment(seg: &String) -> (r: bool)
    ensures
        r == (seg@ == deep_seg()),
{
    let n: usize = seg.as_str().unicode_len();
    if n == 2 {
        let r = seg.as_str().get_char(0) == '*' && seg.as_str().get_char(1) == '*';
        proof {
            if r {
                assert(seg@ =~= deep_seg());
            }
        }
        r
    } else {
        false
    }
}

fn segs_match_from(ps: &Vec<String>, pi: usize, ss: &Vec<String>, si: usize) -> (r: bool)
    requires
        pi <= ps.len(),
        si <= ss.len(),
    ensures
        r == segs_match(ps.deep_view().skip(pi as int), ss.deep_view().skip(si as int)),
    decreases ps.len() - pi + ss.len() - si,
{
    proof {
        if pi < ps.len() {
            assert(ps.deep_view().skip(pi as int)[0] == ps.deep_view()[pi as int]);
            assert(ps.deep_view().skip(pi as int).skip(1) =~= ps.deep_view().skip(pi as int + 1));
        } else {
            assert(ps.deep_view().skip(pi as int) =~= Seq::<Seq<char>>::empty());
        }
        if si < ss.len() {
            assert(ss.deep_view().skip(si as int)[0] == ss.deep_view()[si as int]);
            assert(ss.deep_view().skip(si as int).skip(1) =~= ss.deep_view().skip(si as int + 1));
        } else {
            assert(ss.deep_view().skip(si as int) =~= Seq::<Seq<char>>::empty());
        }
    }
    if pi == ps.len() {
        si == ss.len()
    } else if is_deep_segment(&ps[pi]) {
        if segs_match_from(ps, pi + 1, ss, si) {
            true
        } else if si < ss.len() {
            segs_match_from(ps, pi, ss, si + 1)
        } else {
            false
        }
    } else {
        if si < ss.len() {
            let m = seg_match_from(ps[pi].as_str(), 0, ss[si].as_str(), 0);
            proof {
                assert(ps[pi as int]@.skip(0) =~= ps.deep_view()[pi as int]);
                assert(ss[si as int]@.skip(0) =~= ss.deep_view()[si as int]);
            }
            if m {
                segs_match_from(ps, pi + 1, ss, si + 1)
            } else {
                false
            }
        } else {
            false
        }
    }
}

proof fn lemma_seg_match_literal(p: Seq<char>, s: Seq<char>)
    requires
        forall|k: int| 0 <= k < p.len() ==> p[k] != '*',
    ensures
        seg_match(p, s) <==> p == s,
    decreases p.len() + s.len(),
{
    if p.len() == 0 {
        if s.len() == 0 {
            assert(p =~= s);
        }
    } else {
        assert(p[0] != '*');
        if s.len() > 0 {
            assert forall|k: int| 0 <= k < p.skip(1).len() implies p.skip(1)[k] != '*' by {
                assert(p.skip(1)[k] == p[k + 1]);
            }
            lemma_seg_match_literal(p.skip(1), s.skip(1));
            if seg_match(p, s) {
                assert(p =~= seq![p[0]] + p.skip(1));
                assert(s =~= seq![s[0]] + s.skip(1));
            }
            if p == s {
                assert(p.skip(1) =~= s.skip(1));
            }
        }
    }
}

proof fn lemma_segs_match_literal(ps: Seq<Seq<char>>, ss: Seq<Seq<char>>)
    requires
        forall|i: int, k: int| 0 <= i < ps.len() && 0 <= k < ps[i].len() ==> ps[i][k] != '*',
    ensures
        segs_match(ps, ss) <==> ps == ss,
    decreases ps.len() + ss.len(),
{
    if ps.len() == 0 {
        if ss.len() == 0 {
            assert(ps =~= ss);
        }
    } else {
        assert(ps[0] != deep_seg()) by {
            if ps[0] == deep_seg() {
                assert(ps[0][0] == '*');
            }
        }
        if ss.len() > 0 {
            assert(forall|k: int| 0 <= k < ps[0].len() ==> ps[0][k] != '*');
            lemma_seg_match_literal(ps[0], ss[0]);
            assert forall|i: int, k: int|
                0 <= i < ps.skip(1).len() && 0 <= k < ps.skip(1)[i].len() implies ps.skip(
                1,
            )[i][k] != '*' by {
                assert(ps.skip(1)[i] == ps[i + 1]);
            }
            lemma_segs_match_literal(ps.skip(1), ss.skip(1));
            if segs_match(ps, ss) {
                assert(ps =~= seq![ps[0]] + ps.skip(1));
                assert(ss =~= seq![ss[0]] + ss.skip(1));
            }
            if ps == ss {
                assert(ps.skip(1) =~= ss.skip(1));
            }
        }
    }
}

/// A pattern without a wildcard names one file literally: it matches
/// exactly the path equal to it. This is what lets an empty match on
/// such an entry signal a missing file rather than an optional one.
pub proof fn lemma_literal_glob_is_equality(pat: Seq<char>, path: Seq<char>)
    requires
        !has_wildcard(pat),
    ensures
        glob_matches(pat, path) <==> pat == path,
{
    assert(forall|k: int| 0 <= k < pat.len() ==> pat[k] != '*');
    crate::paths::lemma_segments_no_char(pat, crate::paths::sep(), '*');
    lemma_segs_match_literal(segments_of(pat), segments_of(path));
    if glob_matches(pat, path) {
        crate::paths::lemma_segments_injective(pat, path, crate::paths::sep());
    }
}

/// Whether glob pattern `pat` matches the path `path`.
pub fn glob_match(pat: &str, path: &str) -> (r: bool)
    ensures
        r == glob_matches(pat@, path@),
{
    let ps = split_segments(pat);
    let ss = split_segments(path);
    let r = segs_match_from(&ps, 0, &ss, 0);
    proof {
        assert(ps.deep_view().skip(0) =~= segments_of(pat@));
        assert(ss.deep_view().skip(0) =~= segments_of(path@));
    }
    r
}

/// Whether `pat` contains a `*` wildcard.
pub fn is_glob(pat: &str) -> (r: bool)
    ensures
        r == has_wildcard(pat@),
{
    let n: usize = pat.unicode_len();
    let mut i: usize = 0;
    while i < n
        invariant
            i <= n == pat@.len(),
            forall|j: int| 0 <= j < i ==> pat@[j] != '*',
        decreases n - i,
    {
        if pat.get_char(i) == '*' {
            return true;
        }
        i = i + 1;
    }
    false
}

} // verus!

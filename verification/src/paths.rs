//! Path strings: segmentation, joining, containment.
//!
//! Paths are plain strings whose components are separated by `/`. The
//! safety boundary of every destructive operation is *containment*: a
//! directory may only be deleted when it lies strictly below the cache
//! root, which is stated and checked segment-wise here.

use vstd::prelude::*;

verus! {

/// The character separating path segments.
pub open spec fn sep() -> char {
    '/'
}

/// The pieces of `s` between occurrences of `c`: always non-empty;
/// a string with `n` separators has `n + 1` pieces.
pub open spec fn segments_by(s: Seq<char>, c: char) -> Seq<Seq<char>>
    decreases s.len(),
{
    if s.len() == 0 {
        seq![Seq::<char>::empty()]
    } else if s[0] == c {
        seq![Seq::<char>::empty()] + segments_by(s.skip(1), c)
    } else {
        let rest = segments_by(s.skip(1), c);
        seq![seq![s[0]] + rest[0]] + rest.skip(1)
    }
}

/// The segments of a path: maximal runs of characters between `/`.
pub open spec fn segments_of(s: Seq<char>) -> Seq<Seq<char>> {
    segments_by(s, sep())
}

pub proof fn lemma_segments_nonempty(s: Seq<char>, c: char)
    ensures
        segments_by(s, c).len() >= 1,
    decreases s.len(),
{
    if s.len() == 0 {
    } else {
        lemma_segments_nonempty(s.skip(1), c);
    }
}

/// Splitting invents no characters: a character that does not occur
/// in `s` occurs in none of its pieces.
pub proof fn lemma_segments_no_char(s: Seq<char>, c: char, ch: char)
    requires
        forall|k: int| 0 <= k < s.len() ==> s[k] != ch,
    ensures
        forall|i: int, j: int|
            0 <= i < segments_by(s, c).len() && 0 <= j < segments_by(s, c)[i].len()
                ==> segments_by(s, c)[i][j] != ch,
    decreases s.len(),
{
    if s.len() == 0 {
    } else {
        assert forall|k: int| 0 <= k < s.skip(1).len() implies s.skip(1)[k] != ch by {
            assert(s.skip(1)[k] == s[k + 1]);
        }
        lemma_segments_no_char(s.skip(1), c, ch);
        let rest = segments_by(s.skip(1), c);
        if s[0] == c {
            let segs = segments_by(s, c);
            assert forall|i: int, j: int|
                0 <= i < segs.len() && 0 <= j < segs[i].len() implies segs[i][j] != ch by {
                if i > 0 {
                    assert(segs[i] == rest[i - 1]);
                }
            }
        } else {
            lemma_segments_nonempty(s.skip(1), c);
            let segs = segments_by(s, c);
            assert forall|i: int, j: int|
                0 <= i < segs.len() && 0 <= j < segs[i].len() implies segs[i][j] != ch by {
                if i == 0 {
                    assert(segs[0] == seq![s[0]] + rest[0]);
                    if j == 0 {
                        assert(segs[0][0] == s[0]);
                    } else {
                        assert(segs[0][j] == rest[0][j - 1]);
                    }
                } else {
                    assert(segs[i] == rest.skip(1)[i - 1]);
                    assert(rest.skip(1)[i - 1] == rest[i]);
                }
            }
        }
    }
}

/// Splitting loses nothing: two strings with the same pieces are the
/// same string.
pub proof fn lemma_segments_injective(s1: Seq<char>, s2: Seq<char>, c: char)
    requires
        segments_by(s1, c) == segments_by(s2, c),
    ensures
        s1 == s2,
    decreases s1.len() + s2.len(),
{
    let g1 = segments_by(s1, c);
    let g2 = segments_by(s2, c);
    lemma_segments_nonempty(s1, c);
    lemma_segments_nonempty(s2, c);
    if s1.len() == 0 && s2.len() == 0 {
        assert(s1 =~= s2);
    } else if s1.len() == 0 {
        if s2[0] == c {
            lemma_segments_nonempty(s2.skip(1), c);
            assert(g2.len() >= 2);
            assert(g1.len() == 1);
        } else {
            lemma_segments_nonempty(s2.skip(1), c);
            assert(g2[0] == seq![s2[0]] + segments_by(s2.skip(1), c)[0]);
            assert(g2[0].len() >= 1);
            assert(g1[0].len() == 0);
        }
    } else if s2.len() == 0 {
        if s1[0] == c {
            lemma_segments_nonempty(s1.skip(1), c);
            assert(g1.len() >= 2);
            assert(g2.len() == 1);
        } else {
            lemma_segments_nonempty(s1.skip(1), c);
            assert(g1[0] == seq![s1[0]] + segments_by(s1.skip(1), c)[0]);
            assert(g1[0].len() >= 1);
            assert(g2[0].len() == 0);
        }
    } else {
        let r1 = segments_by(s1.skip(1), c);
        let r2 = segments_by(s2.skip(1), c);
        lemma_segments_nonempty(s1.skip(1), c);
        lemma_segments_nonempty(s2.skip(1), c);
        if s1[0] == c && s2[0] == c {
            assert forall|i: int| 0 <= i < r1.len() implies i < r2.len() && r1[i] == r2[i] by {
                assert(g1[i + 1] == r1[i]);
                assert(g2[i + 1] == r2[i]);
            }
            assert(r1 =~= r2);
            lemma_segments_injective(s1.skip(1), s2.skip(1), c);
            assert(s1 =~= seq![s1[0]] + s1.skip(1));
            assert(s2 =~= seq![s2[0]] + s2.skip(1));
        } else if s1[0] != c && s2[0] != c {
            assert(g1[0] == seq![s1[0]] + r1[0]);
            assert(g2[0] == seq![s2[0]] + r2[0]);
            assert(s1[0] == s2[0]) by {
                assert(g1[0][0] == s1[0]);
                assert(g2[0][0] == s2[0]);
            }
            assert(r1[0] =~= r2[0]) by {
                assert forall|j: int| 0 <= j < r1[0].len() implies j < r2[0].len() && r1[0][j]
                    == r2[0][j] by {
                    assert(g1[0][j + 1] == r1[0][j]);
                    assert(g2[0][j + 1] == r2[0][j]);
                }
            }
            assert forall|i: int| 1 <= i < r1.len() implies i < r2.len() && r1[i] == r2[i] by {
                assert(g1[i] == r1.skip(1)[i - 1]);
                assert(g2[i] == r2.skip(1)[i - 1]);
                assert(r1.skip(1)[i - 1] == r1[i]);
                assert(r2.skip(1)[i - 1] == r2[i]);
            }
            assert(r1.len() == r2.len()) by {
                assert(g1.len() == 1 + r1.skip(1).len());
                assert(g2.len() == 1 + r2.skip(1).len());
            }
            assert(r1 =~= r2);
            lemma_segments_injective(s1.skip(1), s2.skip(1), c);
            assert(s1 =~= seq![s1[0]] + s1.skip(1));
            assert(s2 =~= seq![s2[0]] + s2.skip(1));
        } else if s1[0] == c {
            assert(g1[0].len() == 0);
            assert(g2[0] == seq![s2[0]] + r2[0]);
            assert(g2[0].len() >= 1);
        } else {
            assert(g2[0].len() == 0);
            assert(g1[0] == seq![s1[0]] + r1[0]);
            assert(g1[0].len() >= 1);
        }
    }
}

/// The separator itself never stands inside a piece.
pub proof fn lemma_segments_avoid_sep(s: Seq<char>, c: char)
    ensures
        forall|i: int, j: int|
            0 <= i < segments_by(s, c).len() && 0 <= j < segments_by(s, c)[i].len()
                ==> segments_by(s, c)[i][j] != c,
    decreases s.len(),
{
    if s.len() == 0 {
    } else {
        lemma_segments_avoid_sep(s.skip(1), c);
        let rest = segments_by(s.skip(1), c);
        let segs = segments_by(s, c);
        if s[0] == c {
            assert forall|i: int, j: int|
                0 <= i < segs.len() && 0 <= j < segs[i].len() implies segs[i][j] != c by {
                if i > 0 {
                    assert(segs[i] == rest[i - 1]);
                }
            }
        } else {
            lemma_segments_nonempty(s.skip(1), c);
            assert forall|i: int, j: int|
                0 <= i < segs.len() && 0 <= j < segs[i].len() implies segs[i][j] != c by {
                if i == 0 {
                    assert(segs[0] == seq![s[0]] + rest[0]);
                    if j == 0 {
                        assert(segs[0][0] == s[0]);
                    } else {
                        assert(segs[0][j] == rest[0][j - 1]);
                    }
                } else {
                    assert(segs[i] == rest.skip(1)[i - 1]);
                    assert(rest.skip(1)[i - 1] == rest[i]);
                }
            }
        }
    }
}

/// Splitting distributes over a separator: the pieces of
/// `a + c + b` are the pieces of `a` followed by the pieces of `b`.
pub proof fn lemma_segments_append(a: Seq<char>, b: Seq<char>, c: char)
    ensures
        segments_by(a + seq![c] + b, c) == segments_by(a, c) + segments_by(b, c),
    decreases a.len(),
{
    let s = a + seq![c] + b;
    if a.len() == 0 {
        assert(s =~= seq![c] + b);
        assert(s[0] == c);
        assert(s.skip(1) =~= b);
        assert(segments_by(s, c) =~= seq![Seq::<char>::empty()] + segments_by(b, c));
        assert(segments_by(a, c) =~= seq![Seq::<char>::empty()]);
        assert(seq![Seq::<char>::empty()] + segments_by(b, c) =~= segments_by(a, c)
            + segments_by(b, c));
    } else {
        lemma_segments_append(a.skip(1), b, c);
        assert(s[0] == a[0]);
        assert(s.skip(1) =~= a.skip(1) + seq![c] + b);
        let r = segments_by(a.skip(1) + seq![c] + b, c);
        let ra = segments_by(a.skip(1), c);
        let rb = segments_by(b, c);
        lemma_segments_nonempty(a.skip(1), c);
        lemma_segments_nonempty(b, c);
        assert(r == ra + rb);
        if a[0] == c {
            assert(segments_by(s, c) =~= seq![Seq::<char>::empty()] + r);
            assert(segments_by(a, c) =~= seq![Seq::<char>::empty()] + ra);
            assert(seq![Seq::<char>::empty()] + (ra + rb) =~= (seq![Seq::<char>::empty()] + ra)
                + rb);
        } else {
            assert(r[0] == ra[0]);
            assert(r.skip(1) =~= ra.skip(1) + rb);
            assert(segments_by(s, c) =~= seq![seq![a[0]] + ra[0]] + (ra.skip(1) + rb));
            assert(segments_by(a, c) =~= seq![seq![a[0]] + ra[0]] + ra.skip(1));
            assert(seq![seq![a[0]] + ra[0]] + (ra.skip(1) + rb) =~= (seq![seq![a[0]] + ra[0]]
                + ra.skip(1)) + rb);
        }
    }
}

/// A string without the separator is a single piece.
pub proof fn lemma_segments_single(s: Seq<char>, c: char)
    requires
        forall|k: int| 0 <= k < s.len() ==> s[k] != c,
    ensures
        segments_by(s, c) == seq![s],
    decreases s.len(),
{
    if s.len() == 0 {
        assert(s =~= Seq::<char>::empty());
        assert(segments_by(s, c) =~= seq![s]);
    } else {
        assert forall|k: int| 0 <= k < s.skip(1).len() implies s.skip(1)[k] != c by {
            assert(s.skip(1)[k] == s[k + 1]);
        }
        lemma_segments_single(s.skip(1), c);
        assert(s[0] != c);
        let rest = segments_by(s.skip(1), c);
        assert(rest == seq![s.skip(1)]);
        assert(rest[0] == s.skip(1));
        assert(rest.skip(1) =~= Seq::<Seq<char>>::empty());
        assert(seq![s[0]] + s.skip(1) =~= s);
        assert(segments_by(s, c) =~= seq![seq![s[0]] + rest[0]] + rest.skip(1));
        assert(seq![seq![s[0]] + rest[0]] + rest.skip(1) =~= seq![s]);
    }
}

/// Joining one separator-free name below a root lands strictly
/// under it.
pub proof fn lemma_join_strictly_under(root: Seq<char>, name: Seq<char>)
    requires
        forall|k: int| 0 <= k < name.len() ==> name[k] != sep(),
    ensures
        is_strictly_under(root + seq![sep()] + name, root),
{
    lemma_segments_append(root, name, sep());
    lemma_segments_single(name, sep());
    let cs = segments_of(root + seq![sep()] + name);
    let rs = segments_of(root);
    assert(cs == rs + seq![name]);
    assert(cs.take(rs.len() as int) =~= rs);
}

/// The last segment of a path: everything after the final separator.
pub open spec fn basename_of(s: Seq<char>) -> Seq<char> {
    segments_of(s).last()
}

/// `child` lies strictly below `root`: its segment list extends
/// `root`'s by at least one segment.
pub open spec fn is_strictly_under(child: Seq<char>, root: Seq<char>) -> bool {
    let c = segments_of(child);
    let r = segments_of(root);
    r.len() < c.len() && c.take(r.len() as int) == r
}

/// The first segment of `segs` extended on the left with `p`.
spec fn prepend_first(p: Seq<char>, segs: Seq<Seq<char>>) -> Seq<Seq<char>>
    recommends
        segs.len() >= 1,
{
    seq![p + segs[0]] + segs.skip(1)
}

/// Splits `s` into the pieces between occurrences of `c`.
pub fn split_by(s: &str, c: char) -> (r: Vec<String>)
    ensures
        r.deep_view() == segments_by(s@, c),
        r.len() >= 1,
{
    let n: usize = s.unicode_len();
    let mut done: Vec<String> = Vec::new();
    let mut st: usize = 0;
    let mut i: usize = 0;
    proof {
        lemma_segments_nonempty(s@, c);
        assert(s@.skip(0) =~= s@);
        assert(prepend_first(s@.subrange(0, 0), segments_by(s@, c)) =~= segments_by(s@, c));
    }
    while i < n
        invariant
            st <= i <= n,
            n == s@.len(),
            segments_by(s@.skip(i as int), c).len() >= 1,
            done.deep_view() + prepend_first(
                s@.subrange(st as int, i as int),
                segments_by(s@.skip(i as int), c),
            ) =~= segments_by(s@, c),
        decreases n - i,
    {
        let cur_char = s.get_char(i);
        proof {
            assert(s@.skip(i as int)[0] == s@[i as int]);
            assert(s@.skip(i as int).skip(1) =~= s@.skip(i + 1));
            lemma_segments_nonempty(s@.skip(i + 1), c);
        }
        if cur_char == c {
            let seg = s.substring_char(st, i).to_owned();
            let ghost pre = done.deep_view();
            let ghost st0 = st as int;
            done.push(seg);
            st = i + 1;
            proof {
                let cur = s@.subrange(st0, i as int);
                let tail = segments_by(s@.skip(i + 1), c);
                assert(segments_by(s@.skip(i as int), c) =~= seq![Seq::<char>::empty()] + tail);
                assert(prepend_first(cur, seq![Seq::<char>::empty()] + tail) =~= seq![cur] + tail);
                assert(s@.subrange(st as int, st as int) =~= Seq::<char>::empty());
                assert(prepend_first(Seq::<char>::empty(), tail) =~= tail);
                assert(done.deep_view() =~= pre.push(cur));
                assert(pre.push(cur) + tail =~= pre + (seq![cur] + tail));
            }
        } else {
            proof {
                let cur = s@.subrange(st as int, i as int);
                let rest = segments_by(s@.skip(i + 1), c);
                assert(segments_by(s@.skip(i as int), c) =~= seq![seq![s@[i as int]] + rest[0]]
                    + rest.skip(1));
                assert(cur + (seq![s@[i as int]] + rest[0]) =~= (cur.push(s@[i as int])) + rest[0]);
                assert(s@.subrange(st as int, i + 1) =~= cur.push(s@[i as int]));
                assert(prepend_first(cur, segments_by(s@.skip(i as int), c)) =~= prepend_first(
                    s@.subrange(st as int, i + 1),
                    rest,
                ));
            }
        }
        i = i + 1;
    }
    let last = s.substring_char(st, n).to_owned();
    let ghost pre = done.deep_view();
    done.push(last);
    proof {
        assert(s@.skip(n as int) =~= Seq::<char>::empty());
        assert(segments_by(Seq::<char>::empty(), c) =~= seq![Seq::<char>::empty()]);
        let cur = s@.subrange(st as int, n as int);
        assert(prepend_first(cur, seq![Seq::<char>::empty()]) =~= seq![cur]);
        assert(done.deep_view() =~= pre.push(cur));
        assert(pre.push(cur) =~= pre + seq![cur]);
        assert(done.deep_view() =~= segments_by(s@, c));
    }
    done
}

/// Splits `s` on `/` into its segments.
pub fn split_segments(s: &str) -> (r: Vec<String>)
    ensures
        r.deep_view() == segments_of(s@),
        r.len() >= 1,
{
    split_by(s, '/')
}

/// Whether `child` lies strictly below `root`, compared segment-wise.
pub fn strictly_under(child: &str, root: &str) -> (r: bool)
    ensures
        r == is_strictly_under(child@, root@),
{
    let c = split_segments(child);
    let r_segs = split_segments(root);
    if r_segs.len() >= c.len() {
        return false;
    }
    let mut i: usize = 0;
    while i < r_segs.len()
        invariant
            i <= r_segs.len() < c.len(),
            c.deep_view() == segments_of(child@),
            r_segs.deep_view() == segments_of(root@),
            forall|j: int| 0 <= j < i ==> c.deep_view()[j] == r_segs.deep_view()[j],
        decreases r_segs.len() - i,
    {
        if !c[i].eq(&r_segs[i]) {
            assert(c.deep_view()[i as int] != r_segs.deep_view()[i as int]);
            assert(!is_strictly_under(child@, root@)) by {
                let cs = segments_of(child@);
                let rs = segments_of(root@);
                assert(cs.take(rs.len() as int)[i as int] == cs[i as int]);
            }
            return false;
        }
        i = i + 1;
    }
    proof {
        let cs = segments_of(child@);
        let rs = segments_of(root@);
        assert(cs.take(rs.len() as int) =~= rs);
    }
    true
}

/// The last segment of `s`.
pub fn basename(s: &str) -> (r: String)
    ensures
        r@ == basename_of(s@),
{
    let segs = split_segments(s);
    let r = segs[segs.len() - 1].clone();
    assert(segs.deep_view().last() == segs.deep_view()[segs.len() - 1]);
    r
}

/// Whether `s` ends with `suffix`.
pub open spec fn spec_ends_with(s: Seq<char>, suffix: Seq<char>) -> bool {
    suffix.len() <= s.len() && s.skip((s.len() - suffix.len()) as int) == suffix
}

pub fn ends_with(s: &str, suffix: &str) -> (r: bool)
    ensures
        r == spec_ends_with(s@, suffix@),
{
    let n: usize = s.unicode_len();
    let m: usize = suffix.unicode_len();
    if m > n {
        return false;
    }
    let tail = s.substring_char(n - m, n);
    let r = tail.to_owned().eq(&suffix.to_owned());
    proof {
        if r {
            assert(s@.skip((s@.len() - suffix@.len()) as int) =~= s@.subrange(
                n - m,
                n as int,
            ));
        } else {
            assert(s@.subrange(n - m, n as int) =~= s@.skip((s@.len() - suffix@.len()) as int));
        }
    }
    r
}

/// Joins two path fragments with a single separator.
pub fn join(base: &str, rest: &str) -> (r: String)
    ensures
        r@ == base@ + seq!['/'] + rest@,
{
    let mut r = base.to_owned();
    r.append("/");
    r.append(rest);
    proof {
        reveal_strlit("/");
        assert(r@ =~= base@ + seq!['/'] + rest@);
    }
    r
}

} // verus!

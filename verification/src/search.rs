//! The search workflow: report whether a package's manifest exists,
//! and show its body indented when asked.

use vstd::prelude::*;
use crate::opts::SearchArgs;
use crate::paths::segments_by;
use crate::paths::split_by;

verus! {

/// A line's trailing carriage return, removed.
pub open spec fn strip_cr(l: Seq<char>) -> Seq<char> {
    if l.len() > 0 && l.last() == '\r' {
        l.drop_last()
    } else {
        l
    }
}

/// The lines of a text: split at `\n`, a `\r` before the `\n`
/// removed, and an optional final line terminator producing no empty
/// last line.
pub open spec fn spec_lines(s: Seq<char>) -> Seq<Seq<char>> {
    if s.len() == 0 {
        Seq::empty()
    } else {
        let raw = segments_by(s, '\n');
        let init = raw.drop_last().map_values(|l: Seq<char>| strip_cr(l));
        if raw.last().len() == 0 {
            init
        } else {
            init.push(raw.last())
        }
    }
}

/// `n` spaces.
pub open spec fn padding(n: nat) -> Seq<char> {
    Seq::new(n, |i: int| ' ')
}

/// Lines joined back with `\n`, no trailing terminator.
pub open spec fn join_nl(ls: Seq<Seq<char>>) -> Seq<char>
    decreases ls.len(),
{
    if ls.len() == 0 {
        Seq::empty()
    } else if ls.len() == 1 {
        ls[0]
    } else {
        ls[0] + seq!['\n'] + join_nl(ls.skip(1))
    }
}

proof fn lemma_join_push(ls: Seq<Seq<char>>, x: Seq<char>)
    requires
        ls.len() >= 1,
    ensures
        join_nl(ls.push(x)) == join_nl(ls) + seq!['\n'] + x,
    decreases ls.len(),
{
    let lp = ls.push(x);
    if ls.len() == 1 {
        assert(lp.skip(1) =~= seq![x]);
        assert(join_nl(seq![x]) == x);
        assert(lp[0] == ls[0]);
    } else {
        assert(lp.skip(1) =~= ls.skip(1).push(x));
        lemma_join_push(ls.skip(1), x);
        assert(lp[0] == ls[0]);
        assert(ls[0] + seq!['\n'] + (join_nl(ls.skip(1)) + seq!['\n'] + x) =~= (ls[0]
            + seq!['\n'] + join_nl(ls.skip(1))) + seq!['\n'] + x);
    }
}

/// Every line of `s`, indented by `spaces` spaces.
pub open spec fn spec_indent_lines(s: Seq<char>, spaces: nat) -> Seq<char> {
    join_nl(padded_lines(s, spaces))
}

/// The lines of `s`, each with the padding in front.
pub open spec fn padded_lines(s: Seq<char>, spaces: nat) -> Seq<Seq<char>> {
    spec_lines(s).map_values(|l: Seq<char>| padding(spaces) + l)
}

/// Removes one trailing carriage return, if present.
fn strip_trailing_cr(l: &str) -> (r: String)
    ensures
        r@ == strip_cr(l@),
{
    let n: usize = l.unicode_len();
    if n > 0 && l.get_char(n - 1) == '\r' {
        let r = l.substring_char(0, n - 1).to_owned();
        proof {
            assert(r@ =~= l@.drop_last());
        }
        r
    } else {
        l.to_owned()
    }
}

/// Indents every line of `s` by `spaces` spaces, rejoining them with
/// single newlines.
pub fn indent_lines(s: &str, spaces: usize) -> (r: String)
    ensures
        r@ == spec_indent_lines(s@, spaces as nat),
{
    let n: usize = s.unicode_len();
    if n == 0 {
        return String::new();
    }
    let mut pad = String::new();
    let mut k: usize = 0;
    proof {
        reveal_strlit(" ");
        assert(pad@ =~= padding(0));
    }
    while k < spaces
        invariant
            k <= spaces,
            pad@ =~= padding(k as nat),
        decreases spaces - k,
    {
        pad.append(" ");
        proof {
            reveal_strlit(" ");
            assert(pad@ =~= padding((k + 1) as nat));
        }
        k = k + 1;
    }
    let raw = split_by(s, '\n');
    let m: usize = raw.len();
    let last_kept: bool = !raw[m - 1].as_str().is_empty();
    let count: usize = if last_kept {
        m
    } else {
        m - 1
    };
    let ghost lines = spec_lines(s@);
    let ghost mapped = padded_lines(s@, spaces as nat);
    proof {
        assert(raw.deep_view().drop_last().len() == m - 1);
        assert(lines.len() == count);
        assert forall|j: int| 0 <= j < count implies lines[j] == (if j < m - 1 {
            strip_cr(raw.deep_view()[j])
        } else {
            raw.deep_view()[j]
        }) by {
            if j < m - 1 {
                assert(raw.deep_view().drop_last()[j] == raw.deep_view()[j]);
            }
        }
    }
    let mut res = String::new();
    let mut i: usize = 0;
    proof {
        assert(mapped.take(0) =~= Seq::<Seq<char>>::empty());
        assert(res@ =~= join_nl(mapped.take(0)));
    }
    while i < count
        invariant
            i <= count,
            count <= m == raw.len(),
            m >= 1,
            raw.deep_view() == segments_by(s@, '\n'),
            lines == spec_lines(s@),
            mapped == padded_lines(s@, spaces as nat),
            lines.len() == count,
            mapped.len() == count,
            pad@ == padding(spaces as nat),
            forall|j: int|
                0 <= j < count ==> lines[j] == (if j < m - 1 {
                    strip_cr(raw.deep_view()[j])
                } else {
                    raw.deep_view()[j]
                }),
            res@ =~= join_nl(mapped.take(i as int)),
        decreases count - i,
    {
        let ghost pre = res@;
        if i > 0 {
            res.append("\n");
            proof {
                reveal_strlit("\n");
            }
        }
        res.append(pad.as_str());
        let line: String = if i < m - 1 {
            strip_trailing_cr(raw[i].as_str())
        } else {
            raw[i].clone()
        };
        res.append(line.as_str());
        proof {
            assert(mapped[i as int] == padding(spaces as nat) + lines[i as int]);
            assert(mapped.take(i + 1) =~= mapped.take(i as int).push(mapped[i as int]));
            if i == 0 {
                assert(mapped.take(1) =~= seq![mapped[0]]);
                assert(res@ =~= join_nl(mapped.take(1)));
            } else {
                lemma_join_push(mapped.take(i as int), mapped[i as int]);
                assert(res@ =~= join_nl(mapped.take(i as int)) + seq!['\n'] + mapped[i as int]);
            }
        }
        i = i + 1;
    }
    proof {
        assert(mapped.take(count as int) =~= mapped);
    }
    res
}

/// What a search reports: whether the manifest was found, and — when
/// metadata was asked for — its body, indented for display.
pub enum SearchReport {
    NotFound,
    Found { metadata: Option<String> },
}

/// Turns the outcome of fetching a package's manifest into the
/// search report: found exactly when the fetch succeeded, carrying
/// the body indented by four spaces when metadata was asked for.
pub fn search_package(fetched: &Option<String>, flags: &SearchArgs) -> (r: SearchReport)
    ensures
        fetched is None ==> r == SearchReport::NotFound,
        fetched matches Some(body) ==> (r matches SearchReport::Found { metadata }
            && (flags.log_metadata ==> (metadata matches Some(m) && m@ == spec_indent_lines(
            body@,
            4,
        ))) && (!flags.log_metadata ==> metadata is None)),
{
    match fetched {
        None => SearchReport::NotFound,
        Some(body) => {
            if flags.log_metadata {
                let m = indent_lines(body.as_str(), 4);
                SearchReport::Found { metadata: Some(m) }
            } else {
                SearchReport::Found { metadata: None }
            }
        },
    }
}

} // verus!

//! Newline splitting.  The input text is split on `'\n'` into an ordered
//! sequence of lines; splitting on `n` separators always yields `n + 1`
//! lines, so a trailing empty line, if present from a split, is still
//! addressable by line number like any other line.  Columns and lengths
//! are counted in characters, not bytes.

use vstd::prelude::*;
use vstd::string::*;

verus! {

/// The lines of a text: maximal `'\n'`-free segments, in order.
pub open spec fn spec_lines(t: Seq<char>) -> Seq<Seq<char>>
    decreases t.len(),
{
    if t.len() == 0 {
        seq![Seq::<char>::empty()]
    } else if t[0] == '\n' {
        seq![Seq::<char>::empty()] + spec_lines(t.drop_first())
    } else {
        let rest = spec_lines(t.drop_first());
        seq![seq![t[0]] + rest[0]] + rest.drop_first()
    }
}

/// A text always has at least one line.
pub proof fn lemma_spec_lines_len(t: Seq<char>)
    ensures
        spec_lines(t).len() >= 1,
    decreases t.len(),
{
    if t.len() != 0 {
        lemma_spec_lines_len(t.drop_first());
    }
}

/// Appending one character extends the last line, or opens a fresh empty
/// one when the character is a newline.
pub proof fn lemma_spec_lines_push(t: Seq<char>, c: char)
    ensures
        c == '\n' ==> spec_lines(t.push(c)) == spec_lines(t).push(Seq::<char>::empty()),
        c != '\n' ==> spec_lines(t.push(c)) == spec_lines(t).update(
            spec_lines(t).len() - 1,
            spec_lines(t).last().push(c),
        ),
    decreases t.len(),
{
    lemma_spec_lines_len(t);
    if t.len() == 0 {
        assert(t.push(c).len() == 1);
        assert(t.push(c)[0] == c);
        assert(t.push(c).drop_first() =~= Seq::<char>::empty());
        if c == '\n' {
            assert(spec_lines(t.push(c)) == seq![Seq::<char>::empty()] + spec_lines(
                Seq::<char>::empty(),
            ));
            assert(spec_lines(t.push(c)) =~= spec_lines(t).push(Seq::<char>::empty()));
        } else {
            let rest = spec_lines(Seq::<char>::empty());
            assert(rest =~= seq![Seq::<char>::empty()]);
            assert(seq![t.push(c)[0]] + rest[0] =~= seq![c]);
            assert(spec_lines(t.push(c)) =~= seq![seq![c]]);
            assert(spec_lines(t).update(0, spec_lines(t).last().push(c)) =~= seq![seq![c]]);
        }
    } else {
        let u = t.drop_first();
        lemma_spec_lines_len(u);
        lemma_spec_lines_push(u, c);
        assert(t.push(c)[0] == t[0]);
        assert(t.push(c).drop_first() =~= u.push(c));
        let r = spec_lines(u);
        let rp = spec_lines(u.push(c));
        if t[0] == '\n' {
            assert(spec_lines(t) == seq![Seq::<char>::empty()] + r);
            assert(spec_lines(t.push(c)) == seq![Seq::<char>::empty()] + rp);
            if c == '\n' {
                assert(seq![Seq::<char>::empty()] + r.push(Seq::<char>::empty())
                    =~= (seq![Seq::<char>::empty()] + r).push(Seq::<char>::empty()));
            } else {
                assert(spec_lines(t).last() == r.last());
                assert(seq![Seq::<char>::empty()] + r.update(r.len() - 1, r.last().push(c))
                    =~= (seq![Seq::<char>::empty()] + r).update(
                    r.len() as int,
                    r.last().push(c),
                ));
                assert(spec_lines(t).len() - 1 == r.len() as int);
            }
        } else {
            assert(spec_lines(t) == seq![seq![t[0]] + r[0]] + r.drop_first());
            assert(spec_lines(t.push(c)) == seq![seq![t[0]] + rp[0]] + rp.drop_first());
            if c == '\n' {
                assert(rp == r.push(Seq::<char>::empty()));
                assert(rp[0] == r[0]);
                assert(rp.drop_first() =~= r.drop_first().push(Seq::<char>::empty()));
                assert(seq![seq![t[0]] + r[0]] + r.drop_first().push(Seq::<char>::empty())
                    =~= (seq![seq![t[0]] + r[0]] + r.drop_first()).push(Seq::<char>::empty()));
            } else {
                assert(rp == r.update(r.len() - 1, r.last().push(c)));
                if r.len() == 1 {
                    assert(rp[0] == r[0].push(c));
                    assert(rp.drop_first() =~= Seq::<Seq<char>>::empty());
                    assert(r.drop_first() =~= Seq::<Seq<char>>::empty());
                    assert(spec_lines(t).len() == 1);
                    assert(spec_lines(t).last() == seq![t[0]] + r[0]);
                    assert(seq![seq![t[0]] + r[0].push(c)]
                        =~= spec_lines(t).update(0, (seq![t[0]] + r[0]).push(c))) by {
                        assert(seq![t[0]] + r[0].push(c) =~= (seq![t[0]] + r[0]).push(c));
                    }
                    assert(spec_lines(t.push(c)) =~= seq![seq![t[0]] + r[0].push(c)]);
                } else {
                    assert(rp[0] == r[0]);
                    assert(rp.drop_first() =~= r.drop_first().update(
                        r.len() - 2,
                        r.last().push(c),
                    ));
                    assert(spec_lines(t).len() == r.len() as int);
                    assert(spec_lines(t).last() == r.last());
                    assert(seq![seq![t[0]] + r[0]] + r.drop_first().update(
                        r.len() - 2,
                        r.last().push(c),
                    ) =~= (seq![seq![t[0]] + r[0]] + r.drop_first()).update(
                        r.len() - 1,
                        r.last().push(c),
                    ));
                }
            }
        }
    }
}

/// The mathematical value of a sequence of owned lines.
pub open spec fn line_views(lines: Seq<String>) -> Seq<Seq<char>> {
    lines.map_values(|s: String| s@)
}

/// Splits `text` into its lines, one owned string per line, in order.
#[verifier::loop_isolation(false)]
pub fn split_lines(text: &str) -> (r: Vec<String>)
    ensures
        line_views(r@) == spec_lines(text@),
        r@.len() >= 1,
{
    let n = text.unicode_len();
    let mut out: Vec<String> = Vec::new();
    let mut line_start: usize = 0;
    let mut i: usize = 0;
    proof {
        assert(text@.subrange(0, 0) =~= Seq::<char>::empty());
        assert(line_views(out@) + seq![text@.subrange(0, 0)] =~= spec_lines(
            text@.subrange(0, 0),
        ));
    }
    while i < n
        invariant
            n == text@.len(),
            line_start <= i <= n,
            spec_lines(text@.subrange(0, i as int)) == line_views(out@) + seq![
                text@.subrange(line_start as int, i as int),
            ],
        decreases n - i,
    {
        let ghost pre = text@.subrange(0, i as int);
        let ghost cur = text@.subrange(line_start as int, i as int);
        let c = text.get_char(i);
        proof {
            lemma_spec_lines_push(pre, text@[i as int]);
            assert(text@.subrange(0, i + 1) =~= pre.push(text@[i as int]));
            lemma_spec_lines_len(pre);
        }
        if c == '\n' {
            let piece = text.substring_char(line_start, i);
            let ghost out0 = out@;
            out.push(String::from_str(piece));
            proof {
                assert(line_views(out@) =~= line_views(out0).push(cur));
                assert(spec_lines(pre) == line_views(out0) + seq![cur]);
                assert(spec_lines(text@.subrange(0, i + 1)) =~= line_views(out@) + seq![
                    Seq::<char>::empty(),
                ]);
                assert(text@.subrange(i + 1, i + 1) =~= Seq::<char>::empty());
            }
            line_start = i + 1;
        } else {
            proof {
                assert(spec_lines(pre).last() == cur);
                assert(text@.subrange(line_start as int, i + 1) =~= cur.push(text@[i as int]));
                assert(spec_lines(text@.subrange(0, i + 1)) =~= line_views(out@) + seq![
                    text@.subrange(line_start as int, i + 1),
                ]);
            }
        }
        i += 1;
    }
    let piece = text.substring_char(line_start, n);
    let ghost out0 = out@;
    out.push(String::from_str(piece));
    proof {
        assert(text@.subrange(0, n as int) =~= text@);
        assert(line_views(out@) =~= line_views(out0).push(
            text@.subrange(line_start as int, n as int),
        ));
        assert(line_views(out@) =~= spec_lines(text@));
        lemma_spec_lines_len(text@);
    }
    out
}

} // verus!

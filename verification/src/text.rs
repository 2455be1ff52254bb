//! Character-sequence splitting and joining.
//!
//! Identifier paths arrive as dotted strings and member lists as
//! comma-separated strings; SQL text is assembled by joining column
//! expressions. Both directions are verified against the recursive
//! specifications below.

use vstd::prelude::*;
use vstd::string::*;

verus! {

/// The pieces of `s` lying between occurrences of `sep`, in order.
///
/// An empty sequence splits into one empty piece, and a trailing
/// separator contributes a final empty piece, matching the usual
/// behaviour of splitting a string on a character.
pub open spec fn split_seq(s: Seq<char>, sep: char) -> Seq<Seq<char>>
    decreases s.len(),
{
    if s.len() == 0 {
        seq![Seq::<char>::empty()]
    } else if s.last() == sep {
        split_seq(s.drop_last(), sep).push(Seq::<char>::empty())
    } else {
        let r = split_seq(s.drop_last(), sep);
        r.update(r.len() - 1, r.last().push(s.last()))
    }
}

/// Splitting always yields at least one piece.
pub proof fn lemma_split_seq_len(s: Seq<char>, sep: char)
    ensures
        split_seq(s, sep).len() >= 1,
    decreases s.len(),
{
    if s.len() != 0 {
        lemma_split_seq_len(s.drop_last(), sep);
    }
}

/// Whether `c` occurs nowhere in `t`.
pub open spec fn has_no_char(t: Seq<char>, c: char) -> bool {
    forall|i: int| 0 <= i < t.len() ==> t[i] != c
}

/// Appending separator-free text extends the final piece and nothing
/// else.
pub proof fn lemma_split_append_free(s: Seq<char>, t: Seq<char>, sep: char)
    requires
        has_no_char(t, sep),
    ensures
        split_seq(s + t, sep) == ({
            let r = split_seq(s, sep);
            r.update(r.len() - 1, r.last() + t)
        }),
    decreases t.len(),
{
    lemma_split_seq_len(s, sep);
    let r = split_seq(s, sep);
    if t.len() == 0 {
        assert(s + t =~= s);
        assert(r.update(r.len() - 1, r.last() + t) =~~= r);
    } else {
        let t0 = t.drop_last();
        let c = t.last();
        assert(has_no_char(t0, sep));
        lemma_split_append_free(s, t0, sep);
        let x = s + t0;
        let rr = split_seq(x, sep);
        lemma_split_seq_len(x, sep);
        assert((s + t).drop_last() =~= x);
        assert((s + t).last() == c);
        assert(c != sep);
        assert(split_seq(s + t, sep) == rr.update(rr.len() - 1, rr.last().push(c)));
        assert(rr.last() == r.last() + t0);
        assert((r.last() + t0).push(c) =~= r.last() + t);
        assert(split_seq(s + t, sep) =~~= r.update(r.len() - 1, r.last() + t));
    }
}

/// Appending one separator starts a new, empty final piece.
pub proof fn lemma_split_append_sep(s: Seq<char>, sep: char)
    ensures
        split_seq(s + seq![sep], sep) == split_seq(s, sep).push(Seq::<char>::empty()),
{
    assert((s + seq![sep]).drop_last() =~= s);
    assert((s + seq![sep]).last() == sep);
}

/// Separator-free text splits into itself alone.
pub proof fn lemma_split_free(t: Seq<char>, sep: char)
    requires
        has_no_char(t, sep),
    ensures
        split_seq(t, sep) == seq![t],
{
    assert(Seq::<char>::empty() + t =~= t);
    lemma_split_append_free(Seq::<char>::empty(), t, sep);
    assert(split_seq(t, sep) =~~= seq![t]);
}

/// The pieces interleaved with `sep`: the inverse direction of splitting.
pub open spec fn join_seq(parts: Seq<Seq<char>>, sep: Seq<char>) -> Seq<char>
    decreases parts.len(),
{
    if parts.len() == 0 {
        Seq::<char>::empty()
    } else if parts.len() == 1 {
        parts[0]
    } else {
        join_seq(parts.drop_last(), sep) + sep + parts.last()
    }
}

/// Splits `s` on the character `sep`.
pub fn split_str(s: &str, sep: char) -> (r: Vec<String>)
    ensures
        r.deep_view() == split_seq(s@, sep),
{
    let n = s.unicode_len();
    let mut parts: Vec<String> = Vec::new();
    let mut start: usize = 0;
    let mut i: usize = 0;
    proof {
        assert(s@.take(0) =~= Seq::<char>::empty());
        assert(parts.deep_view().push(s@.subrange(0, 0)) =~~= seq![Seq::<char>::empty()]);
    }
    while i < n
        invariant
            start <= i <= n,
            n == s@.len(),
            split_seq(s@.take(i as int), sep) == parts.deep_view().push(
                s@.subrange(start as int, i as int),
            ),
        decreases n - i,
    {
        let ghost prev_parts = parts.deep_view();
        let ghost prev_start = start as int;
        let c = s.get_char(i);
        proof {
            assert(s@.take(i + 1).drop_last() =~= s@.take(i as int));
            assert(s@.take(i + 1).last() == s@[i as int]);
        }
        if c == sep {
            let piece = s.substring_char(start, i).to_owned();
            parts.push(piece);
            start = i + 1;
            proof {
                assert(parts.deep_view() =~~= prev_parts.push(
                    s@.subrange(prev_start, i as int),
                ));
                assert(s@.subrange(start as int, i + 1) =~= Seq::<char>::empty());
                assert(split_seq(s@.take(i + 1), sep) =~~= parts.deep_view().push(
                    s@.subrange(start as int, i + 1),
                ));
            }
        } else {
            proof {
                let r = split_seq(s@.take(i as int), sep);
                assert(r.last() == s@.subrange(prev_start, i as int));
                assert(s@.subrange(prev_start, i as int).push(s@[i as int]) =~= s@.subrange(
                    prev_start,
                    i + 1,
                ));
                assert(split_seq(s@.take(i + 1), sep) =~~= parts.deep_view().push(
                    s@.subrange(prev_start, i + 1),
                ));
            }
        }
        i += 1;
    }
    let ghost prev_parts = parts.deep_view();
    let last_piece = s.substring_char(start, n).to_owned();
    parts.push(last_piece);
    proof {
        assert(s@.take(n as int) =~= s@);
        assert(parts.deep_view() =~~= prev_parts.push(s@.subrange(start as int, n as int)));
        assert(parts.deep_view() =~~= split_seq(s@, sep));
    }
    parts
}

/// Joins the strings of `parts` with the separator `sep` between them.
pub fn join_strs(parts: &Vec<String>, sep: &str) -> (r: String)
    ensures
        r@ == join_seq(parts.deep_view(), sep@),
{
    let ghost pd = parts.deep_view();
    let mut out = String::new();
    let mut i: usize = 0;
    proof {
        assert(pd.take(0) =~~= Seq::<Seq<char>>::empty());
    }
    while i < parts.len()
        invariant
            i <= parts.len(),
            pd == parts.deep_view(),
            pd.len() == parts@.len(),
            out@ == join_seq(pd.take(i as int), sep@),
        decreases parts.len() - i,
    {
        let ghost prev_out = out@;
        if i > 0 {
            out.append(sep);
        }
        out.append(parts[i].as_str());
        proof {
            assert(pd.take(i + 1).drop_last() =~~= pd.take(i as int));
            assert(pd.take(i + 1).last() == pd[i as int]);
            assert(pd[i as int] == parts@[i as int]@);
            if i > 0 {
                assert(out@ =~= prev_out + sep@ + pd[i as int]);
            } else {
                assert(out@ =~= pd[0]);
            }
        }
        i += 1;
    }
    proof {
        assert(pd.take(parts@.len() as int) =~~= pd);
    }
    out
}

} // verus!

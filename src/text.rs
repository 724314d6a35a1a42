//! Character-sequence helpers shared by the URL and manifest code.

use vstd::prelude::*;
use vstd::string::*;

verus! {

/// The views of a sequence of strings.
pub open spec fn views(v: Seq<String>) -> Seq<Seq<char>> {
    v.map_values(|s: String| s@)
}

/// `parts` joined with `sep` between each two consecutive parts.
pub open spec fn join(parts: Seq<Seq<char>>, sep: char) -> Seq<char>
    decreases parts.len(),
{
    if parts.len() == 0 {
        Seq::empty()
    } else if parts.len() == 1 {
        parts[0]
    } else {
        join(parts.drop_last(), sep) + seq![sep] + parts.last()
    }
}

/// Joining splits at any inner boundary: the parts before it, the separator,
/// then the parts after it.
pub proof fn lemma_join_split(parts: Seq<Seq<char>>, sep: char, k: int)
    requires
        0 < k < parts.len(),
    ensures
        join(parts, sep) == join(parts.subrange(0, k), sep) + seq![sep] + join(
            parts.subrange(k, parts.len() as int),
            sep,
        ),
    decreases parts.len(),
{
    let n = parts.len() as int;
    if k == n - 1 {
        assert(parts.subrange(0, k) =~= parts.drop_last());
        assert(parts.subrange(k, n) =~= seq![parts.last()]);
    } else {
        let init = parts.drop_last();
        lemma_join_split(init, sep, k);
        assert(init.subrange(0, k) =~= parts.subrange(0, k));
        let tail = parts.subrange(k, n);
        assert(tail.drop_last() =~= init.subrange(k, n - 1));
        assert(tail.last() == parts.last());
    }
}

/// The string made of `parts[lo..hi]` joined with `/`.
pub fn join_slash(parts: &Vec<String>, lo: usize, hi: usize) -> (r: String)
    requires
        lo < hi <= parts.len(),
    ensures
        r@ == join(views(parts@.subrange(lo as int, hi as int)), '/'),
{
    let slash = "/";
    proof {
        reveal_strlit("/");
    }
    let mut r = parts[lo].clone();
    let mut i: usize = lo + 1;
    proof {
        assert(views(parts@.subrange(lo as int, i as int)) =~= seq![parts@[lo as int]@]);
    }
    while i < hi
        invariant
            lo < i <= hi <= parts.len(),
            slash@ == seq!['/'],
            r@ == join(views(parts@.subrange(lo as int, i as int)), '/'),
        decreases hi - i,
    {
        r.append(slash);
        r.append(parts[i].as_str());
        proof {
            let next = views(parts@.subrange(lo as int, i + 1));
            assert(next.drop_last() =~= views(parts@.subrange(lo as int, i as int)));
        }
        i = i + 1;
    }
    r
}

} // verus!

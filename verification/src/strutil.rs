//! Character-level utilities on strings: equality and splitting on a
//! separator character, with exact sequence-level specifications.

use vstd::prelude::*;
use vstd::string::StrSliceExecFns;

verus! {

/// The views of a list of strings.
pub open spec fn seq_views(v: Seq<String>) -> Seq<Seq<char>> {
    v.map_values(|t: String| t@)
}

/// Splitting a character sequence on a separator: the chunks between
/// occurrences of `sep`, in order. An empty input gives one empty chunk;
/// adjacent separators give empty chunks between them.
pub open spec fn spec_split(s: Seq<char>, sep: char) -> Seq<Seq<char>>
    decreases s.len(),
{
    if s.len() == 0 {
        seq![Seq::<char>::empty()]
    } else if s[0] == sep {
        seq![Seq::<char>::empty()] + spec_split(s.drop_first(), sep)
    } else {
        let rest = spec_split(s.drop_first(), sep);
        seq![seq![s[0]] + rest[0]] + rest.drop_first()
    }
}

/// A split always has at least one chunk.
pub proof fn lemma_split_nonempty(s: Seq<char>, sep: char)
    ensures
        spec_split(s, sep).len() >= 1,
    decreases s.len(),
{
    if s.len() > 0 {
        lemma_split_nonempty(s.drop_first(), sep);
    }
}

/// Peeling the first chunk off a split: if the characters before position
/// `k` are free of the separator, the split starts with that prefix; when
/// `k` sits on a separator, the rest is the split of what follows it, and
/// when `k` is the end, the prefix is the only chunk.
pub proof fn lemma_split_step(s: Seq<char>, sep: char, k: int)
    requires
        0 <= k <= s.len(),
        forall|j: int| 0 <= j < k ==> s[j] != sep,
        k < s.len() ==> s[k] == sep,
    ensures
        k < s.len() ==> spec_split(s, sep) =~~= seq![s.subrange(0, k)] + spec_split(
            s.subrange(k + 1, s.len() as int),
            sep,
        ),
        k == s.len() ==> spec_split(s, sep) =~~= seq![s],
    decreases s.len(),
{
    lemma_split_nonempty(s, sep);
    if k == 0 {
        if s.len() == 0 {
            assert(s =~= Seq::<char>::empty());
        } else {
            assert(s.subrange(0, 0) =~= Seq::<char>::empty());
            assert(s.subrange(1, s.len() as int) =~= s.drop_first());
        }
    } else {
        let s1 = s.drop_first();
        lemma_split_step(s1, sep, k - 1);
        lemma_split_nonempty(s1, sep);
        let rest = spec_split(s1, sep);
        if k < s.len() {
            assert(s1.subrange(0, k - 1) =~= s.subrange(0, k).drop_first());
            assert(seq![s[0]] + rest[0] =~= s.subrange(0, k));
            assert(s1.subrange(k, s1.len() as int) =~= s.subrange(k + 1, s.len() as int));
        } else {
            assert(seq![s[0]] + s1 =~= s);
        }
    }
}

/// Splits a string on a separator character, cloning each chunk.
pub fn split_char(s: &str, sep: char) -> (r: Vec<String>)
    ensures
        seq_views(r@) == spec_split(s@, sep),
{
    let n = s.unicode_len();
    let mut out: Vec<String> = Vec::new();
    let mut start: usize = 0;
    let mut i: usize = 0;
    proof {
        assert(s@.skip(0) =~= s@);
        assert(seq_views(out@) =~= Seq::<Seq<char>>::empty());
    }
    while i < n
        invariant
            n == s@.len(),
            start <= i <= n,
            forall|j: int| start <= j < i ==> s@[j] != sep,
            spec_split(s@, sep) =~~= seq_views(out@) + spec_split(s@.skip(start as int), sep),
        decreases n - i,
    {
        if s.get_char(i) == sep {
            let chunk = s.substring_char(start, i).to_owned();
            proof {
                let tail = s@.skip(start as int);
                assert(forall|j: int|
                    0 <= j < i - start ==> tail[j] == s@[start + j] && tail[j] != sep);
                lemma_split_step(tail, sep, i - start);
                assert(tail.subrange(0, i - start) =~= s@.subrange(start as int, i as int));
                assert(tail.subrange(i - start + 1, tail.len() as int) =~= s@.skip(i as int + 1));
                assert(seq_views(out@.push(chunk)) =~= seq_views(out@).push(chunk@));
            }
            out.push(chunk);
            start = i + 1;
        }
        i += 1;
    }
    let chunk = s.substring_char(start, n).to_owned();
    proof {
        let tail = s@.skip(start as int);
        assert(forall|j: int| 0 <= j < tail.len() ==> tail[j] == s@[start + j] && tail[j] != sep);
        lemma_split_step(tail, sep, tail.len() as int);
        assert(tail =~= s@.subrange(start as int, n as int));
        assert(seq_views(out@.push(chunk)) =~= seq_views(out@).push(chunk@));
        assert(seq_views(out@) + seq![tail] =~~= seq_views(out@).push(chunk@));
    }
    out.push(chunk);
    out
}

/// Character-for-character equality of two string slices.
pub fn str_eq(a: &str, b: &str) -> (r: bool)
    ensures
        r == (a@ == b@),
{
    let n = a.unicode_len();
    if n != b.unicode_len() {
        return false;
    }
    let mut i: usize = 0;
    while i < n
        invariant
            n == a@.len(),
            n == b@.len(),
            i <= n,
            forall|j: int| 0 <= j < i ==> a@[j] == b@[j],
        decreases n - i,
    {
        if a.get_char(i) != b.get_char(i) {
            return false;
        }
        i += 1;
    }
    proof {
        assert(a@ =~= b@);
    }
    true
}

} // verus!

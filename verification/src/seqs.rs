//! Facts about sequences.
use vstd::prelude::*;

verus! {

/// What's kept of a sequence with one more item.
pub proof fn lemma_filter_map_push<A, B>(s: Seq<A>, x: A, f: spec_fn(A) -> Option<B>)
    ensures
        s.push(x).filter_map(f) == match f(x) {
            Some(y) => s.filter_map(f).push(y),
            None => s.filter_map(f),
        },
{
    assert(s.push(x).drop_last() =~= s);
    if let Some(y) = f(x) {
        assert(s.filter_map(f) + seq![y] =~= s.filter_map(f).push(y));
    }
}

/// What's kept of two sequences, one after the other.
pub proof fn lemma_filter_map_add<A, B>(a: Seq<A>, b: Seq<A>, f: spec_fn(A) -> Option<B>)
    ensures
        (a + b).filter_map(f) == a.filter_map(f) + b.filter_map(f),
    decreases b.len(),
{
    if b.len() == 0 {
        assert(a + b =~= a);
        assert(a.filter_map(f) + b.filter_map(f) =~= a.filter_map(f));
    } else {
        let rest = b.drop_last();
        lemma_filter_map_add(a, rest, f);
        assert(a + b =~= (a + rest).push(b.last()));
        assert(b =~= rest.push(b.last()));
        lemma_filter_map_push(a + rest, b.last(), f);
        lemma_filter_map_push(rest, b.last(), f);
        assert((a + b).filter_map(f) =~= a.filter_map(f) + b.filter_map(f));
    }
}

/// To pick is to filter what's picked, and to map each of it.
pub proof fn lemma_filter_map_is_filter<A, B>(
    s: Seq<A>,
    f: spec_fn(A) -> Option<B>,
    keep: spec_fn(A) -> bool,
    map: spec_fn(A) -> B,
)
    requires
        forall|i: int|
            0 <= i < s.len() ==> f(#[trigger] s[i]) == if keep(s[i]) {
                Some(map(s[i]))
            } else {
                None
            },
    ensures
        s.filter_map(f) == s.filter(keep).map_values(map),
    decreases s.len(),
{
    reveal(Seq::filter);
    if s.len() == 0 {
        assert(s.filter_map(f) =~= s.filter(keep).map_values(map));
    } else {
        let rest = s.drop_last();
        assert forall|i: int| 0 <= i < rest.len() implies f(#[trigger] rest[i]) == if keep(
            rest[i],
        ) {
            Some(map(rest[i]))
        } else {
            None
        } by {
            assert(rest[i] == s[i]);
        }
        lemma_filter_map_is_filter(rest, f, keep, map);
        assert(s =~= rest.push(s.last()));
        lemma_filter_map_push(rest, s.last(), f);
        assert(f(s[s.len() - 1]) == if keep(s[s.len() - 1]) {
            Some(map(s[s.len() - 1]))
        } else {
            None
        });
        assert(s.filter_map(f) =~= s.filter(keep).map_values(map));
    }
}

} // verus!

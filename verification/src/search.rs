use vstd::prelude::*;

verus! {

/// Index of the first element of `s` satisfying `p`, if any.
pub open spec fn first_where<T>(s: Seq<T>, p: spec_fn(T) -> bool) -> Option<int>
    decreases s.len(),
{
    if s.len() == 0 {
        None
    } else if p(s[0]) {
        Some(0int)
    } else {
        match first_where(s.skip(1), p) {
            Some(i) => Some(i + 1),
            None => None,
        }
    }
}

/// Searching the whole sequence agrees with searching past a prefix in which
/// nothing satisfies `p`.
pub proof fn lemma_first_where_skip<T>(s: Seq<T>, p: spec_fn(T) -> bool, k: int)
    requires
        0 <= k <= s.len(),
        forall|j: int| 0 <= j < k ==> !p(s[j]),
    ensures
        first_where(s, p) == match first_where(s.skip(k), p) {
            Some(i) => Some(i + k),
            None => None::<int>,
        },
    decreases k,
{
    if k == 0 {
        assert(s.skip(0) =~= s);
        assert(first_where(s, p) == match first_where(s.skip(0), p) {
            Some(i) => Some(i + 0),
            None => None::<int>,
        });
    } else {
        assert(!p(s[0]));
        lemma_first_where_skip(s.skip(1), p, k - 1);
        assert(s.skip(1).skip(k - 1) =~= s.skip(k));
    }
}

/// When `s[k]` is the first element satisfying `p`, the search returns `k`.
pub proof fn lemma_first_where_found<T>(s: Seq<T>, p: spec_fn(T) -> bool, k: int)
    requires
        0 <= k < s.len(),
        p(s[k]),
        forall|j: int| 0 <= j < k ==> !p(s[j]),
    ensures
        first_where(s, p) == Some(k),
{
    lemma_first_where_skip(s, p, k);
    assert(s.skip(k)[0] == s[k]);
    assert(first_where(s.skip(k), p) == Some(0int));
}

/// When nothing in `s` satisfies `p`, the search fails.
pub proof fn lemma_first_where_none<T>(s: Seq<T>, p: spec_fn(T) -> bool)
    requires
        forall|j: int| 0 <= j < s.len() ==> !p(s[j]),
    ensures
        first_where(s, p) is None,
{
    let k = s.len() as int;
    lemma_first_where_skip(s, p, k);
    assert(s.skip(k).len() == 0);
}

} // verus!

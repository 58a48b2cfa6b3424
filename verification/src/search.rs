use vstd::prelude::*;

verus! {

/// Whether `i` is the position of the first element of `s` that `hit` accepts.
pub open spec fn first_at<T>(s: Seq<T>, hit: spec_fn(T) -> bool, i: int) -> bool {
    &&& 0 <= i < s.len()
    &&& hit(s[i])
    &&& forall|j: int| 0 <= j < i ==> !hit(#[trigger] s[j])
}

/// The position of the first element of `s` that `hit` accepts, if any.
pub open spec fn first_index<T>(s: Seq<T>, hit: spec_fn(T) -> bool) -> Option<int> {
    if exists|i: int| first_at(s, hit, i) {
        Some(choose|i: int| first_at(s, hit, i))
    } else {
        None
    }
}

/// Whether no element of `s` is accepted by `hit`.
pub open spec fn none_hit<T>(s: Seq<T>, hit: spec_fn(T) -> bool) -> bool {
    forall|j: int| 0 <= j < s.len() ==> !hit(#[trigger] s[j])
}

/// There is at most one first position.
pub proof fn lemma_first_at_unique<T>(s: Seq<T>, hit: spec_fn(T) -> bool, i: int, k: int)
    requires
        first_at(s, hit, i),
        first_at(s, hit, k),
    ensures
        i == k,
{
    if i < k {
        assert(!hit(s[i]));
    } else if k < i {
        assert(!hit(s[k]));
    }
}

/// A first position, once exhibited, is what `first_index` names.
pub proof fn lemma_first_index_is<T>(s: Seq<T>, hit: spec_fn(T) -> bool, i: int)
    requires
        first_at(s, hit, i),
    ensures
        first_index(s, hit) == Some(i),
{
    let k = choose|k: int| first_at(s, hit, k);
    lemma_first_at_unique(s, hit, i, k);
}

/// Where nothing is accepted, `first_index` names nothing.
pub proof fn lemma_first_index_none<T>(s: Seq<T>, hit: spec_fn(T) -> bool)
    requires
        none_hit(s, hit),
    ensures
        first_index(s, hit) is None,
{
    if exists|i: int| first_at(s, hit, i) {
        let i = choose|i: int| first_at(s, hit, i);
        assert(!hit(s[i]));
    }
}

/// What `first_index` names is a first position, and it names nothing only
/// where nothing is accepted.
pub proof fn lemma_first_index_sound<T>(s: Seq<T>, hit: spec_fn(T) -> bool)
    ensures
        first_index(s, hit) matches Some(i) ==> first_at(s, hit, i),
        first_index(s, hit) is None ==> none_hit(s, hit),
{
    if first_index(s, hit) is None {
        assert forall|j: int| 0 <= j < s.len() implies !hit(#[trigger] s[j]) by {
            if hit(s[j]) {
                lemma_some_hit_has_first(s, hit, j);
            }
        }
    }
}

/// If some element up to position `j` is accepted, a first position exists.
pub proof fn lemma_some_hit_has_first<T>(s: Seq<T>, hit: spec_fn(T) -> bool, j: int)
    requires
        0 <= j < s.len(),
        hit(s[j]),
    ensures
        exists|i: int| first_at(s, hit, i),
    decreases j,
{
    if forall|k: int| 0 <= k < j ==> !hit(#[trigger] s[k]) {
        assert(first_at(s, hit, j));
    } else {
        let k = choose|k: int| 0 <= k < j && hit(#[trigger] s[k]);
        lemma_some_hit_has_first(s, hit, k);
    }
}

} // verus!

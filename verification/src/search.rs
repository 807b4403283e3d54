//! Facts about the first place at which a sequence holds a value.

use vstd::prelude::*;

verus! {

/// A place that holds `needle`, with no `needle` before it, is the first.
pub proof fn first_occurrence_found<A>(s: Seq<A>, needle: A, i: int)
    requires
        0 <= i < s.len(),
        s[i] == needle,
        forall|j: int| 0 <= j < i ==> #[trigger] s[j] != needle,
    ensures
        s.index_of_first(needle) == Some(i),
{
    s.index_of_first_ensures(needle);
    assert(s.contains(needle));
    let found = s.index_of_first(needle).unwrap();
    if found < i {
        assert(s[found] != needle);
    }
}

/// A sequence that holds no `needle` has no first place for it.
pub proof fn first_occurrence_absent<A>(s: Seq<A>, needle: A)
    requires
        forall|j: int| 0 <= j < s.len() ==> #[trigger] s[j] != needle,
    ensures
        s.index_of_first(needle) is None,
{
    s.index_of_first_ensures(needle);
}

/// What the first place of `needle` is, where there is one: it holds
/// `needle`, and no place before it does.
pub proof fn first_occurrence_is_least<A>(s: Seq<A>, needle: A)
    ensures
        match s.index_of_first(needle) {
            Some(i) => 0 <= i < s.len() && s[i] == needle && forall|j: int|
                0 <= j < i ==> #[trigger] s[j] != needle,
            None => forall|j: int| 0 <= j < s.len() ==> #[trigger] s[j] != needle,
        },
{
    s.index_of_first_ensures(needle);
}

} // verus!

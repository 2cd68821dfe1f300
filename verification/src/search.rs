use vstd::prelude::*;

verus! {

/// `needle` occurs in `hay` starting at index `at`.
pub open spec fn occurs_at(hay: Seq<char>, needle: Seq<char>, at: int) -> bool {
    &&& 0 <= at
    &&& at + needle.len() <= hay.len()
    &&& hay.subrange(at, at + needle.len()) == needle
}

/// `at` is the first index at or after `from` where `needle` occurs in `hay`.
pub open spec fn first_occurrence(hay: Seq<char>, needle: Seq<char>, from: int, at: int) -> bool {
    &&& from <= at
    &&& occurs_at(hay, needle, at)
    &&& forall|j: int| from <= j < at ==> !occurs_at(hay, needle, j)
}

/// The first index at or after `from` where `needle` occurs in `hay`.
pub open spec fn find_at(hay: Seq<char>, needle: Seq<char>, from: int) -> Option<int> {
    if exists|i: int| first_occurrence(hay, needle, from, i) {
        Some(choose|i: int| first_occurrence(hay, needle, from, i))
    } else {
        None
    }
}

/// The first index where `needle` occurs in `hay`.
pub open spec fn find_first(hay: Seq<char>, needle: Seq<char>) -> Option<int> {
    find_at(hay, needle, 0)
}

/// An index that is a first occurrence is the first occurrence.
pub proof fn lemma_find_at_some(hay: Seq<char>, needle: Seq<char>, from: int, at: int)
    requires
        first_occurrence(hay, needle, from, at),
    ensures
        find_at(hay, needle, from) == Some(at),
{
    let i = choose|i: int| first_occurrence(hay, needle, from, i);
    assert(first_occurrence(hay, needle, from, i));
    if i < at {
        assert(!occurs_at(hay, needle, i));
    }
    if at < i {
        assert(!occurs_at(hay, needle, at));
    }
}

/// Without any occurrence at or after `from` there is no first one.
pub proof fn lemma_find_at_none(hay: Seq<char>, needle: Seq<char>, from: int)
    requires
        forall|j: int| from <= j ==> !occurs_at(hay, needle, j),
    ensures
        find_at(hay, needle, from) is None,
{
    assert forall|i: int| !first_occurrence(hay, needle, from, i) by {
        if from <= i {
            assert(!occurs_at(hay, needle, i));
        }
    }
}

/// What a found index says of `hay`: `needle` stands there, not before
/// the start of the search, and nowhere in between.
pub proof fn lemma_find_at(hay: Seq<char>, needle: Seq<char>, from: int)
    ensures
        match find_at(hay, needle, from) {
            Some(at) => first_occurrence(hay, needle, from, at),
            None => forall|j: int| from <= j ==> !occurs_at(hay, needle, j),
        },
{
    if exists|i: int| first_occurrence(hay, needle, from, i) {
    } else {
        assert forall|j: int| from <= j implies !occurs_at(hay, needle, j) by {
            if occurs_at(hay, needle, j) {
                lemma_some_first(hay, needle, from, j);
            }
        }
    }
}

/// Where `needle` occurs at or after `from`, it has a first occurrence there.
proof fn lemma_some_first(hay: Seq<char>, needle: Seq<char>, from: int, at: int)
    requires
        from <= at,
        occurs_at(hay, needle, at),
    ensures
        exists|i: int| first_occurrence(hay, needle, from, i),
    decreases at - from,
{
    if exists|j: int| from <= j < at && occurs_at(hay, needle, j) {
        let j = choose|j: int| from <= j < at && occurs_at(hay, needle, j);
        lemma_some_first(hay, needle, from, j);
    } else {
        assert(first_occurrence(hay, needle, from, at));
    }
}

/// Whether `needle` occurs at index `at` in the first `limit` characters of `hay`.
pub(crate) fn matches_within(hay: &Vec<char>, needle: &Vec<char>, at: usize, limit: usize) -> (r: bool)
    requires
        limit <= hay.len(),
    ensures
        r == occurs_at(hay@.take(limit as int), needle@, at as int),
{
    if needle.len() > limit || at > limit - needle.len() {
        return false;
    }
    let ghost window = hay@.take(limit as int).subrange(at as int, at + needle.len());
    let mut k: usize = 0;
    while k < needle.len()
        invariant
            k <= needle.len(),
            at + needle.len() <= limit <= hay.len(),
            window == hay@.take(limit as int).subrange(at as int, at + needle.len()),
            forall|j: int| 0 <= j < k ==> hay@[at + j] == needle@[j],
        decreases needle.len() - k,
    {
        if hay[at + k] != needle[k] {
            assert(window[k as int] == hay@[at + k]);
            return false;
        }
        k += 1;
    }
    assert(window =~= needle@);
    true
}

/// The first index at or after `from` where `needle` occurs in the first
/// `limit` characters of `hay`.
pub(crate) fn find_within(hay: &Vec<char>, needle: &Vec<char>, from: usize, limit: usize) -> (r: Option<
    usize,
>)
    requires
        limit <= hay.len(),
    ensures
        match r {
            Some(at) => find_at(hay@.take(limit as int), needle@, from as int) == Some(at as int)
                && from <= at && at + needle@.len() <= limit,
            None => find_at(hay@.take(limit as int), needle@, from as int) is None,
        },
{
    let ghost window = hay@.take(limit as int);
    let mut i: usize = from;
    while i < limit
        invariant
            from <= i,
            limit <= hay.len(),
            window == hay@.take(limit as int),
            forall|j: int| from <= j < i ==> !occurs_at(window, needle@, j),
        decreases limit - i,
    {
        if matches_within(hay, needle, i, limit) {
            proof {
                lemma_find_at_some(window, needle@, from as int, i as int);
            }
            return Some(i);
        }
        i += 1;
    }
    if matches_within(hay, needle, i, limit) {
        proof {
            lemma_find_at_some(window, needle@, from as int, i as int);
        }
        return Some(i);
    }
    proof {
        lemma_find_at_none(window, needle@, from as int);
    }
    None
}

/// The first index at or after `from` where `needle` occurs in `hay`.
pub fn find_from(hay: &Vec<char>, needle: &Vec<char>, from: usize) -> (r: Option<usize>)
    ensures
        match r {
            Some(at) => find_at(hay@, needle@, from as int) == Some(at as int) && from <= at && at
                + needle@.len() <= hay@.len(),
            None => find_at(hay@, needle@, from as int) is None,
        },
{
    assert(hay@.take(hay.len() as int) == hay@);
    find_within(hay, needle, from, hay.len())
}

/// The first index where `needle` occurs in `hay`.
pub fn find_in(hay: &Vec<char>, needle: &Vec<char>) -> (r: Option<usize>)
    ensures
        match r {
            Some(at) => find_first(hay@, needle@) == Some(at as int) && at + needle@.len()
                <= hay@.len(),
            None => find_first(hay@, needle@) is None,
        },
{
    find_from(hay, needle, 0)
}

} // verus!

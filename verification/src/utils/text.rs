use vstd::prelude::*;
use vstd::string::*;

verus! {

/// Compares two strings character by character.
pub fn str_eq(a: &str, b: &str) -> (r: bool)
    ensures
        r == (a@ == b@),
{
    let n: usize = a.unicode_len();
    if n != b.unicode_len() {
        return false;
    }
    let mut i: usize = 0;
    while i < n
        invariant
            n == a@.len(),
            n == b@.len(),
            i <= n,
            forall|k: int| 0 <= k < i ==> a@[k] == b@[k],
        decreases n - i,
    {
        if a.get_char(i) != b.get_char(i) {
            return false;
        }
        i += 1;
    }
    assert(a@ =~= b@);
    true
}

/// No string occurs twice.
pub open spec fn distinct_ids(ids: Seq<Seq<char>>) -> bool {
    forall|i: int, j: int| 0 <= i < j < ids.len() ==> ids[i] != ids[j]
}

/// Position of the first string that repeats an earlier one, or the length when all are
/// distinct.
pub open spec fn first_repeat(ids: Seq<Seq<char>>) -> int
    decreases ids.len(),
{
    if ids.len() == 0 {
        0
    } else if distinct_ids(ids) {
        ids.len() as int
    } else {
        first_repeat(ids.drop_last())
    }
}

/// The texts of a sequence of strings.
pub open spec fn views_of(ids: Seq<&str>) -> Seq<Seq<char>> {
    ids.map_values(|s: &str| s@)
}

/// Finds the first string that repeats an earlier one: its position, or `None` when no
/// string occurs twice.
pub fn first_duplicate(ids: &[&str]) -> (r: Option<usize>)
    ensures
        r is None <==> distinct_ids(views_of(ids@)),
        r matches Some(k) ==> k < ids@.len() && k == first_repeat(views_of(ids@)),
{
    let n: usize = ids.len();
    let ghost v = views_of(ids@);
    let mut k: usize = 0;
    while k < n
        invariant
            n == ids@.len(),
            v == views_of(ids@),
            k <= n,
            distinct_ids(v.take(k as int)),
        decreases n - k,
    {
        let mut j: usize = 0;
        while j < k
            invariant
                n == ids@.len(),
                v == views_of(ids@),
                j <= k < n,
                distinct_ids(v.take(k as int)),
                forall|a: int| 0 <= a < j ==> v[a] != v[k as int],
            decreases k - j,
        {
            if str_eq(ids[j], ids[k]) {
                proof {
                    lemma_first_repeat_at(v, k as int, j as int);
                }
                return Some(k);
            }
            j += 1;
        }
        proof {
            let t = v.take(k + 1);
            assert forall|a: int, b: int| 0 <= a < b < t.len() implies #[trigger] t[a]
                != #[trigger] t[b] by {
                if b < k {
                    assert(v.take(k as int)[a] == v[a]);
                    assert(v.take(k as int)[b] == v[b]);
                }
            }
        }
        k += 1;
    }
    assert(v.take(n as int) =~= v);
    None
}

/// With distinct-prefix up to `k` and a match between `j < k` and `k`, the first repeat is `k`.
pub proof fn lemma_first_repeat_at(ids: Seq<Seq<char>>, k: int, j: int)
    requires
        0 <= j < k < ids.len(),
        distinct_ids(ids.take(k)),
        ids[j] == ids[k],
    ensures
        first_repeat(ids) == k,
    decreases ids.len(),
{
    if ids.len() == k + 1 {
        assert(!distinct_ids(ids));
        assert(ids.drop_last() =~= ids.take(k));
        lemma_first_repeat_of_distinct(ids.take(k));
    } else {
        assert(!distinct_ids(ids)) by {
            assert(ids[j] == ids[k]);
        }
        assert(ids.drop_last().take(k) =~= ids.take(k));
        lemma_first_repeat_at(ids.drop_last(), k, j);
    }
}

pub proof fn lemma_first_repeat_of_distinct(ids: Seq<Seq<char>>)
    requires
        distinct_ids(ids),
    ensures
        first_repeat(ids) == ids.len(),
{
}

pub proof fn lemma_index_of_is_first(ids: Seq<Seq<char>>, x: Seq<char>, i: int)
    requires
        0 <= i < ids.len(),
        ids[i] == x,
        distinct_ids(ids),
    ensures
        ids.index_of(x) == i,
{
    let w: int = ids.index_of(x);
    assert(0 <= w < ids.len() && ids[w] == x);
    if w < i {
        assert(ids[w] != ids[i]);
    } else if i < w {
        assert(ids[i] != ids[w]);
    }
}

} // verus!

use vstd::multiset::Multiset;
use vstd::prelude::*;

use crate::expected_response::{
    lemma_match_is_equality_with_offsets, responses_match, ExpectedResponse, ResponseView,
};

verus! {

/// The records of a sequence, by value.
pub open spec fn views(s: Seq<ExpectedResponse>) -> Seq<ResponseView> {
    s.map_values(|r: ExpectedResponse| r@)
}

/// The indices `0..n`, in order: every consumed record, none used yet.
pub open spec fn full_pool(n: nat) -> Seq<usize> {
    Seq::new(n, |i: int| i as usize)
}

/// Position `p` of the pool holds a consumed record that matches `e`.
pub open spec fn pool_matches_at(
    e: ResponseView,
    actual: Seq<ResponseView>,
    pool: Seq<usize>,
    p: int,
) -> bool {
    0 <= p < pool.len() && responses_match(actual[pool[p] as int], e)
}

/// Position `p` holds the first consumed record in the pool that matches `e`.
pub open spec fn is_first_match(e: ResponseView, actual: Seq<ResponseView>, pool: Seq<usize>, p: int) -> bool {
    pool_matches_at(e, actual, pool, p) && forall|q: int|
        0 <= q < p ==> !pool_matches_at(e, actual, pool, q)
}

/// The first position of the pool whose consumed record matches `e`, if any does.
#[verifier::opaque]
pub open spec fn first_match_in(e: ResponseView, actual: Seq<ResponseView>, pool: Seq<usize>) -> Option<
    int,
> {
    if exists|p: int| pool_matches_at(e, actual, pool, p) {
        Some(choose|p: int| is_first_match(e, actual, pool, p))
    } else {
        None
    }
}

/// Matching in any order: each expected record, in turn, takes the first still unused
/// consumed record that matches it. The result gives, for each expected record, the
/// index of the consumed record it took; or the index of the first expected record
/// for which none was left.
#[verifier::opaque]
pub open spec fn greedy_assignment(
    expected: Seq<ResponseView>,
    actual: Seq<ResponseView>,
    pool: Seq<usize>,
) -> Result<Seq<usize>, int>
    decreases expected.len(),
{
    if expected.len() == 0 {
        Ok(Seq::empty())
    } else {
        match first_match_in(expected[0], actual, pool) {
            None => Err(0),
            Some(p) => prepend_result(
                seq![pool[p]],
                greedy_assignment(expected.drop_first(), actual, pool.remove(p)),
            ),
        }
    }
}

/// Puts the assignment of earlier expected records in front of a later result.
pub open spec fn prepend_result(pre: Seq<usize>, r: Result<Seq<usize>, int>) -> Result<
    Seq<usize>,
    int,
> {
    match r {
        Ok(s) => Ok(pre + s),
        Err(k) => Err(k + pre.len()),
    }
}

/// No expected record could be matched with a consumed one that was still unused.
#[derive(Debug, Clone, Copy, PartialEq, Eq, Structural)]
pub struct UnmatchedResponse {
    /// The position of that record among the expected ones.
    pub expected_index: usize,
}

/// Whether a result of the matcher is the one the specification gives.
pub open spec fn result_is(r: Result<Vec<usize>, UnmatchedResponse>, s: Result<Seq<usize>, int>) -> bool {
    match (r, s) {
        (Ok(v), Ok(t)) => v@ == t,
        (Err(e), Err(k)) => e.expected_index == k,
        _ => false,
    }
}

proof fn lemma_prepend_err(
    assigned: Seq<usize>,
    rest: Seq<ResponseView>,
    av: Seq<ResponseView>,
    pool: Seq<usize>,
)
    requires
        rest.len() > 0,
        first_match_in(rest[0], av, pool) is None,
    ensures
        prepend_result(assigned, greedy_assignment(rest, av, pool)) == Err::<Seq<usize>, int>(
            assigned.len() as int,
        ),
{
    reveal(greedy_assignment);
}

proof fn lemma_prepend_step(
    assigned: Seq<usize>,
    rest: Seq<ResponseView>,
    av: Seq<ResponseView>,
    pool: Seq<usize>,
    p: int,
)
    requires
        rest.len() > 0,
        first_match_in(rest[0], av, pool) == Some(p),
    ensures
        prepend_result(assigned, greedy_assignment(rest, av, pool)) == prepend_result(
            assigned.push(pool[p]),
            greedy_assignment(rest.drop_first(), av, pool.remove(p)),
        ),
{
    reveal(greedy_assignment);
    let later = greedy_assignment(rest.drop_first(), av, pool.remove(p));
    match later {
        Ok(s) => {
            assert(assigned + (seq![pool[p]] + s) == assigned.push(pool[p]) + s);
        },
        Err(k) => {},
    }
}

fn first_match(e: &ExpectedResponse, actual: &Vec<ExpectedResponse>, pool: &Vec<usize>) -> (r: Option<usize>)
    requires
        forall|q: int| 0 <= q < pool.len() ==> pool[q] < actual.len(),
    ensures
        r matches Some(p) ==> p < pool.len(),
        match (r, first_match_in(e@, views(actual@), pool@)) {
            (Some(p), Some(q)) => p == q,
            (None, None) => true,
            _ => false,
        },
{
    let ghost ev = e@;
    let ghost av = views(actual@);
    let mut p: usize = 0;
    while p < pool.len()
        invariant
            p <= pool.len(),
            forall|q: int| 0 <= q < pool.len() ==> pool[q] < actual.len(),
            ev == e@,
            av == views(actual@),
            forall|q: int| 0 <= q < p ==> !pool_matches_at(ev, av, pool@, q),
        decreases pool.len() - p,
    {
        let i = pool[p];
        if actual[i] == *e {
            proof {
                reveal(first_match_in);
                assert(is_first_match(ev, av, pool@, p as int));
                let c = first_match_in(ev, av, pool@)->0;
                assert(is_first_match(ev, av, pool@, c));
                if c < p {
                } else if c > p {
                    assert(!pool_matches_at(ev, av, pool@, p as int));
                }
            }
            return Some(p);
        }
        p = p + 1;
    }
    proof {
        reveal(first_match_in);
    }
    None
}

/// Matches consumed records with expected ones regardless of the order in which they
/// were consumed: each expected record, in turn, takes the first unused consumed record
/// that matches it. On success, gives for each expected record the index of the consumed
/// record it took; otherwise names the first expected record left without one.
pub fn match_in_any_order(expected: &Vec<ExpectedResponse>, actual: &Vec<ExpectedResponse>) -> (r:
    Result<Vec<usize>, UnmatchedResponse>)
    ensures
        result_is(r, greedy_assignment(views(expected@), views(actual@), full_pool(actual@.len()))),
{
    let ghost es = views(expected@);
    let ghost av = views(actual@);
    let mut pool: Vec<usize> = Vec::new();
    let mut j: usize = 0;
    while j < actual.len()
        invariant
            j <= actual.len(),
            pool@ == full_pool(j as nat),
        decreases actual.len() - j,
    {
        pool.push(j);
        j = j + 1;
    }
    assert(pool@ == full_pool(actual@.len()));
    let ghost init = pool@;
    let mut assigned: Vec<usize> = Vec::new();
    let mut i: usize = 0;
    assert(es.skip(0) == es);
    while i < expected.len()
        invariant
            i <= expected.len(),
            es == views(expected@),
            av == views(actual@),
            init == full_pool(actual@.len()),
            assigned@.len() == i,
            forall|q: int| 0 <= q < pool.len() ==> pool[q] < actual.len(),
            greedy_assignment(es, av, init) == prepend_result(
                assigned@,
                greedy_assignment(es.skip(i as int), av, pool@),
            ),
        decreases expected.len() - i,
    {
        let ghost rest = es.skip(i as int);
        proof {
            assert(rest[0] == expected@[i as int]@);
            assert(rest.drop_first() == es.skip(i + 1));
        }
        match first_match(&expected[i], actual, &pool) {
            None => {
                proof {
                    lemma_prepend_err(assigned@, rest, av, pool@);
                }
                return Err(UnmatchedResponse { expected_index: i });
            },
            Some(p) => {
                let ghost old_pool = pool@;
                let ghost old_assigned = assigned@;
                let taken = pool.remove(p);
                assigned.push(taken);
                proof {
                    lemma_prepend_step(old_assigned, rest, av, old_pool, p as int);
                    assert(old_pool.remove(p as int) == pool@);
                    assert(old_assigned.push(taken) == assigned@);
                    assert forall|q: int| 0 <= q < pool.len() implies pool[q] < actual.len() by {
                        if q < p {
                            assert(pool[q] == old_pool[q]);
                        } else {
                            assert(pool[q] == old_pool[q + 1]);
                        }
                    }
                }
                i = i + 1;
            },
        }
    }
    proof {
        assert(es.skip(i as int).len() == 0);
        reveal(greedy_assignment);
    }
    assert(assigned@ + Seq::<usize>::empty() == assigned@);
    Ok(assigned)
}


/// Every record in the sequence carries its offset: there is no wildcard among them.
pub open spec fn all_offsets_known(s: Seq<ResponseView>) -> bool {
    forall|i: int| 0 <= i < s.len() ==> (#[trigger] s[i]).offset is Some
}

/// The consumed records that the pool still holds, in pool order.
pub open spec fn pool_values(actual: Seq<ResponseView>, pool: Seq<usize>) -> Seq<ResponseView> {
    pool.map_values(|j: usize| actual[j as int])
}

proof fn lemma_minimal_match_exists(e: ResponseView, actual: Seq<ResponseView>, pool: Seq<usize>, k: int)
    requires
        pool_matches_at(e, actual, pool, k),
    ensures
        exists|p: int| is_first_match(e, actual, pool, p),
    decreases k,
{
    if exists|q: int| 0 <= q < k && pool_matches_at(e, actual, pool, q) {
        let q = choose|q: int| 0 <= q < k && pool_matches_at(e, actual, pool, q);
        lemma_minimal_match_exists(e, actual, pool, q);
    } else {
        assert(is_first_match(e, actual, pool, k));
    }
}

proof fn lemma_first_match_in_spec(e: ResponseView, actual: Seq<ResponseView>, pool: Seq<usize>)
    ensures
        match first_match_in(e, actual, pool) {
            Some(p) => is_first_match(e, actual, pool, p),
            None => forall|q: int| !pool_matches_at(e, actual, pool, q),
        },
{
    reveal(first_match_in);
    if exists|p: int| pool_matches_at(e, actual, pool, p) {
        let k = choose|p: int| pool_matches_at(e, actual, pool, p);
        lemma_minimal_match_exists(e, actual, pool, k);
    }
}

proof fn lemma_greedy_sound_in_pool(expected: Seq<ResponseView>, actual: Seq<ResponseView>, pool: Seq<usize>)
    requires
        pool.no_duplicates(),
        forall|q: int| 0 <= q < pool.len() ==> pool[q] < actual.len(),
    ensures
        greedy_assignment(expected, actual, pool) matches Ok(s) ==> {
            &&& s.len() == expected.len()
            &&& s.no_duplicates()
            &&& forall|i: int|
                0 <= i < s.len() ==> pool.contains(#[trigger] s[i]) && responses_match(
                    actual[s[i] as int],
                    expected[i],
                )
        },
    decreases expected.len(),
{
    reveal(greedy_assignment);
    if expected.len() > 0 {
        lemma_first_match_in_spec(expected[0], actual, pool);
        if let Some(p) = first_match_in(expected[0], actual, pool) {
            let rest_pool = pool.remove(p);
            assert forall|q: int| 0 <= q < rest_pool.len() implies rest_pool[q] == pool[
                if q < p { q } else { q + 1 }
            ] by {}
            assert forall|x: usize| rest_pool.contains(x) implies pool.contains(x) && x != pool[p] by {
                let q = choose|q: int| 0 <= q < rest_pool.len() && rest_pool[q] == x;
                let q2 = if q < p { q } else { q + 1 };
                assert(pool[q2] == x);
            }
            lemma_greedy_sound_in_pool(expected.drop_first(), actual, rest_pool);
            if let Ok(rest) = greedy_assignment(expected.drop_first(), actual, rest_pool) {
                let s = seq![pool[p]] + rest;
                assert(greedy_assignment(expected, actual, pool) == Ok::<Seq<usize>, int>(s));
                assert forall|i: int| 0 <= i < s.len() implies pool.contains(#[trigger] s[i])
                    && responses_match(actual[s[i] as int], expected[i]) by {
                    if i > 0 {
                        assert(s[i] == rest[i - 1]);
                        assert(rest_pool.contains(rest[i - 1]));
                    }
                }
                assert forall|i: int, j: int|
                    0 <= i < s.len() && 0 <= j < s.len() && i != j implies s[i] != s[j] by {
                    if i > 0 && j > 0 {
                        assert(s[i] == rest[i - 1] && s[j] == rest[j - 1]);
                    } else if i == 0 {
                        assert(rest_pool.contains(rest[j - 1]));
                    } else {
                        assert(rest_pool.contains(rest[i - 1]));
                    }
                }
            }
        }
    }
}

proof fn lemma_full_pool(n: nat)
    requires
        n <= usize::MAX,
    ensures
        full_pool(n).no_duplicates(),
        forall|q: int| 0 <= q < n ==> #[trigger] full_pool(n)[q] == q,
{
}

/// Matching in any order pairs each expected record with a distinct consumed record
/// that matches it; and where as many records were consumed as are expected, every
/// consumed record is paired with one.
pub proof fn lemma_any_order_match_is_sound(expected: Seq<ResponseView>, actual: Seq<ResponseView>)
    requires
        actual.len() <= usize::MAX,
    ensures
        greedy_assignment(expected, actual, full_pool(actual.len())) matches Ok(s) ==> {
            &&& s.len() == expected.len()
            &&& s.no_duplicates()
            &&& forall|i: int|
                0 <= i < s.len() ==> #[trigger] s[i] < actual.len() && responses_match(
                    actual[s[i] as int],
                    expected[i],
                )
            &&& expected.len() == actual.len() ==> forall|j: usize|
                j < actual.len() ==> s.contains(j)
        },
{
    let pool = full_pool(actual.len());
    lemma_full_pool(actual.len());
    lemma_greedy_sound_in_pool(expected, actual, pool);
    if let Ok(s) = greedy_assignment(expected, actual, pool) {
        assert forall|i: int| 0 <= i < s.len() implies #[trigger] s[i] < actual.len() by {
            assert(pool.contains(s[i]));
        }
        if expected.len() == actual.len() {
            broadcast use vstd::seq_lib::seq_to_set_is_finite;

            s.unique_seq_to_set();
            pool.unique_seq_to_set();
            assert(s.to_set().subset_of(pool.to_set()));
            vstd::set_lib::lemma_subset_equality(s.to_set(), pool.to_set());
            assert forall|j: usize| j < actual.len() implies s.contains(j) by {
                assert(pool[j as int] == j);
                assert(pool.to_set().contains(j));
            }
        }
    }
}


proof fn lemma_multiset_subset_after_removal(a: Multiset<ResponseView>, b: Multiset<ResponseView>, e: ResponseView)
    requires
        a.count(e) > 0,
        b.count(e) > 0,
    ensures
        a.subset_of(b) <==> a.remove(e).subset_of(b.remove(e)),
{
    broadcast use vstd::multiset::group_multiset_axioms;

    if a.remove(e).subset_of(b.remove(e)) {
        assert forall|v: ResponseView| a.count(v) <= b.count(v) by {
            assert(a.remove(e).count(v) <= b.remove(e).count(v));
        }
    }
    if a.subset_of(b) {
        assert forall|v: ResponseView| a.remove(e).count(v) <= b.remove(e).count(v) by {
            assert(a.count(v) <= b.count(v));
        }
    }
}

proof fn lemma_greedy_complete_in_pool(expected: Seq<ResponseView>, actual: Seq<ResponseView>, pool: Seq<usize>)
    requires
        all_offsets_known(expected),
        all_offsets_known(actual),
        forall|q: int| 0 <= q < pool.len() ==> pool[q] < actual.len(),
    ensures
        (greedy_assignment(expected, actual, pool) is Ok) <==> expected.to_multiset().subset_of(
            pool_values(actual, pool).to_multiset(),
        ),
    decreases expected.len(),
{
    reveal(greedy_assignment);
    broadcast use vstd::seq_lib::group_to_multiset_ensures, vstd::multiset::group_multiset_axioms;

    let pv = pool_values(actual, pool);
    if expected.len() == 0 {
        assert(expected.to_multiset().len() == 0);
        assert(expected.to_multiset() =~= Multiset::empty());
    } else {
        let e = expected[0];
        let rest = expected.drop_first();
        lemma_first_match_in_spec(e, actual, pool);
        assert forall|q: int| 0 <= q < pool.len() implies pool_matches_at(e, actual, pool, q) <==> pv[q]
            == e by {
            lemma_match_is_equality_with_offsets(actual[pool[q] as int], e);
        }
        assert(expected.remove(0) == rest);
        assert(rest.to_multiset() == expected.to_multiset().remove(e));
        assert(expected.contains(e));
        assert(expected.to_multiset().count(e) > 0);
        assert forall|i: int| 0 <= i < rest.len() implies (#[trigger] rest[i]).offset is Some by {
            assert(rest[i] == expected[i + 1]);
        }
        match first_match_in(e, actual, pool) {
            None => {
                assert(!pv.contains(e));
                assert(pv.to_multiset().count(e) == 0);
            },
            Some(p) => {
                let rest_pool = pool.remove(p);
                assert(pv[p] == e);
                assert(pool_values(actual, rest_pool) =~= pv.remove(p));
                assert(pv.remove(p).to_multiset() == pv.to_multiset().remove(e));
                assert(pv.contains(e));
                assert forall|q: int| 0 <= q < rest_pool.len() implies rest_pool[q] < actual.len() by {
                    if q < p {
                        assert(rest_pool[q] == pool[q]);
                    } else {
                        assert(rest_pool[q] == pool[q + 1]);
                    }
                }
                lemma_greedy_complete_in_pool(rest, actual, rest_pool);
                lemma_multiset_subset_after_removal(expected.to_multiset(), pv.to_multiset(), e);
            },
        }
    }
}

/// Without wildcard offsets on either side, matching in any order succeeds exactly when
/// every expected record was consumed at least as often as it is expected; and, where as
/// many records were consumed as are expected, exactly when the consumed records are the
/// expected ones in some order.
pub proof fn lemma_any_order_match_is_complete_without_wildcards(
    expected: Seq<ResponseView>,
    actual: Seq<ResponseView>,
)
    requires
        all_offsets_known(expected),
        all_offsets_known(actual),
        actual.len() <= usize::MAX,
    ensures
        (greedy_assignment(expected, actual, full_pool(actual.len())) is Ok)
            <==> expected.to_multiset().subset_of(actual.to_multiset()),
        expected.len() == actual.len() ==> ((greedy_assignment(
            expected,
            actual,
            full_pool(actual.len()),
        ) is Ok) <==> expected.to_multiset() == actual.to_multiset()),
{
    broadcast use vstd::seq_lib::group_to_multiset_ensures, vstd::multiset::group_multiset_axioms;

    let pool = full_pool(actual.len());
    lemma_full_pool(actual.len());
    assert(pool_values(actual, pool) =~= actual);
    lemma_greedy_complete_in_pool(expected, actual, pool);
    if expected.len() == actual.len() {
        let m1 = expected.to_multiset();
        let m2 = actual.to_multiset();
        if m1.subset_of(m2) {
            assert(m2.sub(m1).len() == 0);
            assert(m2.sub(m1) =~= Multiset::empty());
            assert forall|v: ResponseView| m1.count(v) == m2.count(v) by {
                assert(m2.sub(m1).count(v) == 0);
            }
            assert(m1 =~= m2);
        }
    }
}


proof fn lemma_greedy_failure_in_pool(expected: Seq<ResponseView>, actual: Seq<ResponseView>, pool: Seq<usize>)
    requires
        pool.no_duplicates(),
        forall|q: int| 0 <= q < pool.len() ==> pool[q] < actual.len(),
    ensures
        greedy_assignment(expected, actual, pool) matches Err(k) ==> {
            &&& 0 <= k < expected.len()
            &&& exists|s: Seq<usize>|
                {
                    &&& s.len() == k
                    &&& s.no_duplicates()
                    &&& forall|i: int|
                        0 <= i < k ==> pool.contains(#[trigger] s[i]) && responses_match(
                            actual[s[i] as int],
                            expected[i],
                        )
                    &&& forall|x: usize|
                        pool.contains(x) && !s.contains(x) ==> !responses_match(
                            #[trigger] actual[x as int],
                            expected[k],
                        )
                }
        },
    decreases expected.len(),
{
    reveal(greedy_assignment);
    if expected.len() > 0 {
        lemma_first_match_in_spec(expected[0], actual, pool);
        match first_match_in(expected[0], actual, pool) {
            None => {
                let s = Seq::<usize>::empty();
                assert forall|x: usize| pool.contains(x) && !s.contains(x) implies !responses_match(
                    #[trigger] actual[x as int],
                    expected[0],
                ) by {
                    let q = choose|q: int| 0 <= q < pool.len() && pool[q] == x;
                    assert(!pool_matches_at(expected[0], actual, pool, q));
                }
            },
            Some(p) => {
                let rest = expected.drop_first();
                let rest_pool = pool.remove(p);
                assert forall|q: int| 0 <= q < rest_pool.len() implies rest_pool[q] == pool[
                    if q < p { q } else { q + 1 }
                ] by {}
                assert forall|x: usize| rest_pool.contains(x) implies pool.contains(x) && x
                    != pool[p] by {
                    let q = choose|q: int| 0 <= q < rest_pool.len() && rest_pool[q] == x;
                    let q2 = if q < p { q } else { q + 1 };
                    assert(pool[q2] == x);
                }
                assert forall|x: usize| pool.contains(x) && x != pool[p] implies rest_pool.contains(
                    x,
                ) by {
                    let q = choose|q: int| 0 <= q < pool.len() && pool[q] == x;
                    assert(q != p);
                    let q2 = if q < p { q } else { q - 1 };
                    assert(rest_pool[q2] == x);
                }
                lemma_greedy_failure_in_pool(rest, actual, rest_pool);
                if let Err(k1) = greedy_assignment(rest, actual, rest_pool) {
                    let s1 = choose|s: Seq<usize>|
                        {
                            &&& s.len() == k1
                            &&& s.no_duplicates()
                            &&& forall|i: int|
                                0 <= i < k1 ==> rest_pool.contains(#[trigger] s[i]) && responses_match(
                                    actual[s[i] as int],
                                    rest[i],
                                )
                            &&& forall|x: usize|
                                rest_pool.contains(x) && !s.contains(x) ==> !responses_match(
                                    #[trigger] actual[x as int],
                                    rest[k1],
                                )
                        };
                    let k = k1 + 1;
                    let s = seq![pool[p]] + s1;
                    assert(greedy_assignment(expected, actual, pool) == Err::<Seq<usize>, int>(k));
                    assert(expected[k] == rest[k1]);
                    assert forall|i: int| 0 <= i < k implies pool.contains(#[trigger] s[i])
                        && responses_match(actual[s[i] as int], expected[i]) by {
                        if i > 0 {
                            assert(s[i] == s1[i - 1]);
                            assert(rest_pool.contains(s1[i - 1]));
                            assert(expected[i] == rest[i - 1]);
                        } else {
                            assert(pool_matches_at(expected[0], actual, pool, p));
                        }
                    }
                    assert forall|i: int, j: int|
                        0 <= i < s.len() && 0 <= j < s.len() && i != j implies s[i] != s[j] by {
                        if i > 0 && j > 0 {
                            assert(s[i] == s1[i - 1] && s[j] == s1[j - 1]);
                        } else if i == 0 {
                            assert(rest_pool.contains(s1[j - 1]));
                        } else {
                            assert(rest_pool.contains(s1[i - 1]));
                        }
                    }
                    assert forall|x: usize| pool.contains(x) && !s.contains(x) implies !responses_match(
                        #[trigger] actual[x as int],
                        expected[k],
                    ) by {
                        assert(s[0] == pool[p]);
                        assert(x != pool[p]);
                        assert(rest_pool.contains(x));
                        if s1.contains(x) {
                            let i = choose|i: int| 0 <= i < s1.len() && s1[i] == x;
                            assert(s[i + 1] == x);
                        }
                    }
                }
            },
        }
    }
}

/// Matching in any order fails only for want of a record: when it reports the expected
/// record at position `k`, the records before it can be given distinct consumed records
/// that match them such that no other consumed record matches the one at `k`. In
/// particular, each expected record is compared with every consumed record still unused,
/// whether or not it carries an offset.
pub proof fn lemma_any_order_failure_is_genuine(expected: Seq<ResponseView>, actual: Seq<ResponseView>)
    requires
        actual.len() <= usize::MAX,
    ensures
        greedy_assignment(expected, actual, full_pool(actual.len())) matches Err(k) ==> {
            &&& 0 <= k < expected.len()
            &&& exists|s: Seq<usize>|
                {
                    &&& s.len() == k
                    &&& s.no_duplicates()
                    &&& forall|i: int|
                        0 <= i < k ==> #[trigger] s[i] < actual.len() && responses_match(
                            actual[s[i] as int],
                            expected[i],
                        )
                    &&& forall|j: usize|
                        j < actual.len() && !s.contains(j) ==> !responses_match(
                            #[trigger] actual[j as int],
                            expected[k],
                        )
                }
        },
{
    let pool = full_pool(actual.len());
    lemma_full_pool(actual.len());
    lemma_greedy_failure_in_pool(expected, actual, pool);
    if let Err(k) = greedy_assignment(expected, actual, pool) {
        let s = choose|s: Seq<usize>|
            {
                &&& s.len() == k
                &&& s.no_duplicates()
                &&& forall|i: int|
                    0 <= i < k ==> pool.contains(#[trigger] s[i]) && responses_match(
                        actual[s[i] as int],
                        expected[i],
                    )
                &&& forall|x: usize|
                    pool.contains(x) && !s.contains(x) ==> !responses_match(
                        #[trigger] actual[x as int],
                        expected[k],
                    )
            };
        assert forall|i: int| 0 <= i < k implies #[trigger] s[i] < actual.len() by {
            assert(pool.contains(s[i]));
        }
        assert forall|j: usize| j < actual.len() && !s.contains(j) implies !responses_match(
            #[trigger] actual[j as int],
            expected[k],
        ) by {
            assert(pool[j as int] == j);
            assert(pool.contains(j));
        }
    }
}

} // verus!

//! Picking the highest-scored restraint candidates.
use vstd::prelude::*;

verus! {

/// A restraint candidate: a score and the process id that breaks ties.
pub trait ScoredCandidate: Sized {
    spec fn score_spec(&self) -> u32;

    spec fn id_spec(&self) -> u32;

    fn score(&self) -> (r: u32)
        ensures
            r == self.score_spec(),
    ;

    fn candidate_id(&self) -> (r: u32)
        ensures
            r == self.id_spec(),
    ;
}

/// `a` is selected no later than `b`: a higher score, or the same score and
/// a lower or equal process id.
pub open spec fn ranks_before<T: ScoredCandidate>(a: T, b: T) -> bool {
    a.score_spec() > b.score_spec() || (a.score_spec() == b.score_spec() && a.id_spec() <= b.id_spec())
}

/// `a` and `b` rank alike: the same score and the same process id.
pub open spec fn same_rank<T: ScoredCandidate>(a: T, b: T) -> bool {
    a.score_spec() == b.score_spec() && a.id_spec() == b.id_spec()
}

/// `idx` gives each selected candidate's position in the input: distinct
/// positions; among candidates that rank alike, the selected ones come in
/// input order and before every one left out.
pub open spec fn stable_choice<T: ScoredCandidate>(r: Seq<T>, input: Seq<T>, idx: Seq<int>) -> bool {
    &&& idx.len() == r.len()
    &&& forall|i: int| 0 <= i < r.len() ==> 0 <= #[trigger] idx[i] < input.len() && r[i] == input[idx[i]]
    &&& forall|i: int, j: int| 0 <= i < j < r.len() ==> #[trigger] idx[i] != #[trigger] idx[j]
    &&& forall|i: int, j: int|
        0 <= i < j < r.len() && same_rank(#[trigger] r[i], #[trigger] r[j]) ==> idx[i] < idx[j]
    &&& forall|i: int, p: int|
        0 <= i < r.len() && 0 <= p < input.len() && !idx.contains(p) && same_rank(#[trigger] r[i], #[trigger] input[p])
            ==> idx[i] < p
}

/// The number of candidates kept: `maximum`, at least one, at most all.
pub open spec fn selection_len(n: nat, maximum: u8) -> nat {
    let m: nat = if maximum == 0 {
        1
    } else {
        maximum as nat
    };
    if n < m {
        n
    } else {
        m
    }
}

/// The highest-scored candidates, best first (score descending, then process
/// id ascending), at most `maximum` of them and at least one; candidates
/// that rank alike keep their input order (as a stable sort gives them).
pub fn select_highest_scored<T: ScoredCandidate>(candidates: Vec<T>, maximum: u8) -> (r: Vec<T>)
    ensures
        r@.len() == selection_len(candidates@.len(), maximum),
        r@.to_multiset().subset_of(candidates@.to_multiset()),
        forall|i: int, j: int| 0 <= i < j < r@.len() ==> ranks_before(#[trigger] r@[i], #[trigger] r@[j]),
        forall|c: T|
            #[trigger] candidates@.to_multiset().count(c) > r@.to_multiset().count(c) ==> forall|i: int|
                0 <= i < r@.len() ==> ranks_before(#[trigger] r@[i], c),
        exists|idx: Seq<int>| stable_choice(r@, candidates@, idx),
{
    broadcast use vstd::seq_lib::group_to_multiset_ensures, vstd::multiset::group_multiset_axioms;

    let ghost input = candidates@;
    let limit: usize = if maximum == 0 {
        1
    } else {
        maximum as usize
    };
    let mut remaining = candidates;
    let mut result: Vec<T> = Vec::new();
    let ghost mut res_idx: Seq<int> = Seq::empty();
    let ghost mut rem_idx: Seq<int> = Seq::new(input.len(), |p: int| p);
    assert(result@.to_multiset().add(remaining@.to_multiset()) =~= input.to_multiset());
    assert forall|p: int| 0 <= p < input.len() implies res_idx.contains(p) || rem_idx.contains(p) by {
        assert(rem_idx[p] == p);
    }
    while result.len() < limit && remaining.len() > 0
        invariant
            limit >= 1,
            limit == if maximum == 0 { 1 } else { maximum as usize },
            result@.len() <= limit,
            result@.len() + remaining@.len() == input.len(),
            result@.to_multiset().add(remaining@.to_multiset()) == input.to_multiset(),
            forall|i: int, j: int| 0 <= i < j < result@.len() ==> ranks_before(#[trigger] result@[i], #[trigger] result@[j]),
            forall|i: int, j: int|
                0 <= i < result@.len() && 0 <= j < remaining@.len() ==> ranks_before(#[trigger] result@[i], #[trigger] remaining@[j]),
            res_idx.len() == result@.len(),
            rem_idx.len() == remaining@.len(),
            forall|i: int| 0 <= i < result@.len() ==> 0 <= #[trigger] res_idx[i] < input.len() && result@[i] == input[res_idx[i]],
            forall|j: int| 0 <= j < remaining@.len() ==> 0 <= #[trigger] rem_idx[j] < input.len() && remaining@[j] == input[rem_idx[j]],
            forall|a: int, b: int| 0 <= a < b < rem_idx.len() ==> #[trigger] rem_idx[a] < #[trigger] rem_idx[b],
            forall|a: int, b: int| 0 <= a < b < res_idx.len() ==> #[trigger] res_idx[a] != #[trigger] res_idx[b],
            forall|a: int, b: int| 0 <= a < res_idx.len() && 0 <= b < rem_idx.len() ==> #[trigger] res_idx[a] != #[trigger] rem_idx[b],
            forall|p: int| 0 <= p < input.len() ==> res_idx.contains(p) || rem_idx.contains(p),
            forall|i: int, j: int|
                0 <= i < j < result@.len() && same_rank(#[trigger] result@[i], #[trigger] result@[j]) ==> res_idx[i] < res_idx[j],
            forall|i: int, j: int|
                0 <= i < result@.len() && 0 <= j < remaining@.len() && same_rank(#[trigger] result@[i], #[trigger] remaining@[j])
                    ==> res_idx[i] < rem_idx[j],
        decreases remaining@.len(),
    {
        let mut best: usize = 0;
        let mut k: usize = 1;
        while k < remaining.len()
            invariant
                0 < remaining@.len(),
                best < remaining@.len(),
                1 <= k <= remaining@.len(),
                best < k,
                forall|j: int| 0 <= j < k ==> ranks_before(remaining@[best as int], #[trigger] remaining@[j]),
                forall|j: int| 0 <= j < best ==> !same_rank(#[trigger] remaining@[j], remaining@[best as int]),
            decreases remaining@.len() - k,
        {
            let sk = remaining[k].score();
            let sb = remaining[best].score();
            if sk > sb || (sk == sb && remaining[k].candidate_id() < remaining[best].candidate_id()) {
                best = k;
            }
            k = k + 1;
        }
        let ghost before = remaining@;
        let ghost result_before = result@;
        let ghost res_before = res_idx;
        let ghost rem_before = rem_idx;
        let x = remaining.remove(best);
        proof {
            res_idx = res_before.push(rem_before[best as int]);
            rem_idx = rem_before.remove(best as int);
        }
        proof {
            assert(remaining@ == before.remove(best as int));
            assert(x == before[best as int]);
            vstd::seq_lib::to_multiset_remove(before, best as int);
            assert(remaining@.to_multiset() == before.to_multiset().remove(x));
            assert(before.contains(x));
            vstd::seq_lib::to_multiset_contains(before, x);
            assert(before.to_multiset().count(x) > 0);
        }
        result.push(x);
        proof {
            assert(result@ == result_before.push(x));
            vstd::seq_lib::to_multiset_build(result_before, x);
            assert(result@.to_multiset() == result_before.to_multiset().insert(x));
            assert(result@.to_multiset().add(remaining@.to_multiset()) =~= input.to_multiset());
            assert forall|i: int, j: int| 0 <= i < j < result@.len() implies ranks_before(#[trigger] result@[i], #[trigger] result@[j]) by {
                if j == result@.len() - 1 {
                    assert(result@[i] == result_before[i]);
                    assert(ranks_before(result_before[i], before[best as int]));
                } else {
                    assert(result@[i] == result_before[i] && result@[j] == result_before[j]);
                }
            }
            assert forall|i: int, j: int|
                0 <= i < result@.len() && 0 <= j < remaining@.len() implies ranks_before(#[trigger] result@[i], #[trigger] remaining@[j]) by {
                let jj = if j < best { j } else { j + 1 };
                assert(remaining@[j] == before[jj]);
                if i == result@.len() - 1 {
                    assert(ranks_before(before[best as int], before[jj]));
                } else {
                    assert(result@[i] == result_before[i]);
                }
            }
            let q = rem_before[best as int];
            assert forall|i: int| 0 <= i < result@.len() implies 0 <= #[trigger] res_idx[i] < input.len() && result@[i]
                == input[res_idx[i]] by {
                if i < result_before.len() {
                    assert(res_idx[i] == res_before[i]);
                    assert(result@[i] == result_before[i]);
                }
            }
            assert forall|j: int| 0 <= j < remaining@.len() implies 0 <= #[trigger] rem_idx[j] < input.len()
                && remaining@[j] == input[rem_idx[j]] by {
                let jj = if j < best { j } else { j + 1 };
                assert(rem_idx[j] == rem_before[jj]);
                assert(remaining@[j] == before[jj]);
            }
            assert forall|a: int, b: int| 0 <= a < b < rem_idx.len() implies #[trigger] rem_idx[a] < #[trigger] rem_idx[b] by {
                let aa = if a < best { a } else { a + 1 };
                let bb = if b < best { b } else { b + 1 };
                assert(rem_idx[a] == rem_before[aa]);
                assert(rem_idx[b] == rem_before[bb]);
            }
            assert forall|a: int, b: int| 0 <= a < b < res_idx.len() implies #[trigger] res_idx[a] != #[trigger] res_idx[b] by {
                if b == res_before.len() {
                    assert(res_idx[a] == res_before[a]);
                    assert(res_before[a] != rem_before[best as int]);
                } else {
                    assert(res_idx[a] == res_before[a] && res_idx[b] == res_before[b]);
                }
            }
            assert forall|a: int, b: int| 0 <= a < res_idx.len() && 0 <= b < rem_idx.len() implies #[trigger] res_idx[a]
                != #[trigger] rem_idx[b] by {
                let bb = if b < best { b } else { b + 1 };
                assert(rem_idx[b] == rem_before[bb]);
                if a < res_before.len() {
                    assert(res_idx[a] == res_before[a]);
                } else {
                    assert(res_idx[a] == rem_before[best as int]);
                    assert(bb != best);
                    if bb < best {
                        assert(rem_before[bb] < rem_before[best as int]);
                    } else {
                        assert(rem_before[best as int] < rem_before[bb]);
                    }
                }
            }
            assert forall|p: int| 0 <= p < input.len() implies res_idx.contains(p) || rem_idx.contains(p) by {
                if res_before.contains(p) {
                    let a = choose|a: int| 0 <= a < res_before.len() && res_before[a] == p;
                    assert(res_idx[a] == p);
                } else {
                    assert(rem_before.contains(p));
                    let b = choose|b: int| 0 <= b < rem_before.len() && rem_before[b] == p;
                    if b == best {
                        assert(res_idx[res_before.len() as int] == p);
                    } else {
                        let bj = if b < best { b } else { b - 1 };
                        assert(rem_idx[bj] == p);
                    }
                }
            }
            assert forall|i: int, j: int|
                0 <= i < j < result@.len() && same_rank(#[trigger] result@[i], #[trigger] result@[j]) implies res_idx[i]
                < res_idx[j] by {
                assert(result@[i] == result_before[i]);
                assert(res_idx[i] == res_before[i]);
                if j == result_before.len() {
                    assert(result@[j] == before[best as int]);
                    assert(same_rank(result_before[i], before[best as int]));
                } else {
                    assert(result@[j] == result_before[j]);
                }
            }
            assert forall|i: int, j: int|
                0 <= i < result@.len() && 0 <= j < remaining@.len() && same_rank(#[trigger] result@[i], #[trigger] remaining@[j])
                    implies res_idx[i] < rem_idx[j] by {
                let jj = if j < best { j } else { j + 1 };
                assert(remaining@[j] == before[jj]);
                assert(rem_idx[j] == rem_before[jj]);
                if i < result_before.len() {
                    assert(result@[i] == result_before[i]);
                    assert(res_idx[i] == res_before[i]);
                } else {
                    assert(result@[i] == before[best as int]);
                    if jj < best {
                        assert(!same_rank(before[jj], before[best as int]));
                    }
                    assert(rem_before[best as int] < rem_before[jj]);
                }
            }
        }
    }
    proof {
        assert forall|c: T|
            #[trigger] input.to_multiset().count(c) > result@.to_multiset().count(c) implies forall|i: int|
                0 <= i < result@.len() ==> ranks_before(#[trigger] result@[i], c) by {
            assert(remaining@.to_multiset().count(c) > 0);
            assert(remaining@.contains(c));
            let j = choose|j: int| 0 <= j < remaining@.len() && remaining@[j] == c;
            assert forall|i: int| 0 <= i < result@.len() implies ranks_before(#[trigger] result@[i], c) by {
                assert(ranks_before(result@[i], remaining@[j]));
            }
        }
        assert forall|c: T| result@.to_multiset().count(c) <= input.to_multiset().count(c) by {}
        assert forall|i: int, p: int|
            0 <= i < result@.len() && 0 <= p < input.len() && !res_idx.contains(p) && same_rank(
                #[trigger] result@[i],
                #[trigger] input[p],
            ) implies res_idx[i] < p by {
            assert(rem_idx.contains(p));
            let j = choose|j: int| 0 <= j < rem_idx.len() && rem_idx[j] == p;
            assert(remaining@[j] == input[p]);
        }
        assert(stable_choice(result@, input, res_idx));
    }
    result
}

} // verus!

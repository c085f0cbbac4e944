use vstd::prelude::*;

use crate::error::ContractError;
use crate::order::lemma_lex_asym;
use crate::order::lemma_lex_irrefl;
use crate::order::lemma_lex_trans;
use crate::order::lex_lt;
use crate::order::str_cmp;

verus! {

/// A fulfilled randomness outcome: the oracle's job identifier, the
/// 32-byte random value it delivered, and whether a claim has already
/// consumed it.
pub struct OutcomeEntry {
    pub job_id: String,
    pub randomness: Vec<u8>,
    pub consumed: bool,
}

/// The store keeps outcomes in strictly ascending job-identifier order.
pub open spec fn sorted_by_job_id(s: Seq<OutcomeEntry>) -> bool {
    forall|i: int, j: int| 0 <= i < j < s.len() ==> lex_lt(s[i].job_id@, s[j].job_id@)
}

/// Sorted, and every stored random value is exactly 32 bytes.
pub open spec fn outcomes_wf(s: Seq<OutcomeEntry>) -> bool {
    &&& sorted_by_job_id(s)
    &&& forall|i: int| 0 <= i < s.len() ==> (#[trigger] s[i]).randomness@.len() == 32
}

/// The store holds an outcome for this job identifier.
pub open spec fn has_job(s: Seq<OutcomeEntry>, id: Seq<char>) -> bool {
    exists|i: int| 0 <= i < s.len() && s[i].job_id@ == id
}

/// The position of this job's outcome; meaningful when `has_job`.
pub open spec fn job_index(s: Seq<OutcomeEntry>, id: Seq<char>) -> int {
    choose|i: int| 0 <= i < s.len() && s[i].job_id@ == id
}

/// The stored outcome of this job; meaningful when `has_job`.
pub open spec fn outcome_of(s: Seq<OutcomeEntry>, id: Seq<char>) -> OutcomeEntry {
    s[job_index(s, id)]
}

/// Job `id` is held identically by the two stores: present in one exactly
/// when present in the other, and with the same value and consumed flag.
pub open spec fn same_job(s1: Seq<OutcomeEntry>, s2: Seq<OutcomeEntry>, id: Seq<char>) -> bool {
    &&& has_job(s2, id) == has_job(s1, id)
    &&& (has_job(s1, id) ==> outcome_of(s2, id).randomness@ == outcome_of(s1, id).randomness@
        && outcome_of(s2, id).consumed == outcome_of(s1, id).consumed)
}

/// Slot `k` holds the outcome a claim selects: the first unconsumed one in
/// ascending job-identifier order.
pub open spec fn is_first_unconsumed(s: Seq<OutcomeEntry>, k: int) -> bool {
    &&& 0 <= k < s.len()
    &&& !s[k].consumed
    &&& forall|j: int| 0 <= j < k ==> (#[trigger] s[j]).consumed
}

/// The slot of the first unconsumed outcome; meaningful when
/// `has_unconsumed`.
pub open spec fn selected_index(s: Seq<OutcomeEntry>) -> int {
    choose|k: int| is_first_unconsumed(s, k)
}

/// Some stored outcome is still unconsumed.
pub open spec fn has_unconsumed(s: Seq<OutcomeEntry>) -> bool {
    exists|k: int| 0 <= k < s.len() && !(#[trigger] s[k]).consumed
}

/// How many stored outcomes have been consumed.
pub open spec fn count_consumed(s: Seq<OutcomeEntry>) -> int
    decreases s.len(),
{
    if s.len() == 0 {
        0
    } else {
        (if s[0].consumed {
            1int
        } else {
            0int
        }) + count_consumed(s.skip(1))
    }
}

/// In a sorted store no job identifier appears twice.
pub proof fn lemma_sorted_unique(s: Seq<OutcomeEntry>)
    requires
        sorted_by_job_id(s),
    ensures
        forall|i: int, j: int| 0 <= i < j < s.len() ==> s[i].job_id@ != s[j].job_id@,
{
    assert forall|i: int, j: int| 0 <= i < j < s.len() implies s[i].job_id@ != s[j].job_id@ by {
        lemma_lex_asym(s[i].job_id@, s[j].job_id@);
    }
}

/// With a sorted store, any slot holding the job is the slot that
/// `job_index` names.
pub proof fn lemma_job_at(s: Seq<OutcomeEntry>, i: int)
    requires
        sorted_by_job_id(s),
        0 <= i < s.len(),
    ensures
        has_job(s, s[i].job_id@),
        job_index(s, s[i].job_id@) == i,
        outcome_of(s, s[i].job_id@) == s[i],
{
    lemma_sorted_unique(s);
    assert(has_job(s, s[i].job_id@));
    let j = job_index(s, s[i].job_id@);
    assert(0 <= j < s.len() && s[j].job_id@ == s[i].job_id@);
}

/// The slot a claim selects is unique.
pub proof fn lemma_first_unconsumed_unique(s: Seq<OutcomeEntry>, k1: int, k2: int)
    requires
        is_first_unconsumed(s, k1),
        is_first_unconsumed(s, k2),
    ensures
        k1 == k2,
{
}

/// A successful claim consumes exactly one outcome, and a fresh one: the
/// selected slot was unconsumed before and is consumed after, the consumed
/// count grows by exactly one, every outcome consumed before stays
/// consumed, and in a sorted store all slots carry distinct job
/// identifiers — so after any run of successful claims the consumed
/// outcomes are as many distinct jobs as there were claims, and none is
/// ever selected twice.
pub proof fn lemma_claim_consumes_exactly_one(
    pre: Seq<OutcomeEntry>,
    post: Seq<OutcomeEntry>,
    k: int,
)
    requires
        is_first_unconsumed(pre, k),
        post.len() == pre.len(),
        post[k].consumed,
        forall|j: int| 0 <= j < pre.len() && j != k ==> post[j] == pre[j],
    ensures
        !pre[k].consumed,
        count_consumed(post) == count_consumed(pre) + 1,
        forall|j: int| 0 <= j < pre.len() && (#[trigger] pre[j]).consumed ==> post[j].consumed,
{
    lemma_count_flip(pre, post, k);
}

proof fn lemma_count_flip(s1: Seq<OutcomeEntry>, s2: Seq<OutcomeEntry>, k: int)
    requires
        0 <= k < s1.len(),
        s2.len() == s1.len(),
        !s1[k].consumed,
        s2[k].consumed,
        forall|j: int| 0 <= j < s1.len() && j != k ==> s2[j] == s1[j],
    ensures
        count_consumed(s2) == count_consumed(s1) + 1,
    decreases s1.len(),
{
    if k == 0 {
        assert(s1.skip(1) =~= s2.skip(1));
    } else {
        lemma_count_flip(s1.skip(1), s2.skip(1), k - 1);
        assert(s2[0] == s1[0]);
    }
}

/// Finds the slot of the first unconsumed outcome in ascending
/// job-identifier order, if any outcome is still unconsumed.
pub fn find_first_unconsumed(outcomes: &Vec<OutcomeEntry>) -> (r: Option<usize>)
    ensures
        match r {
            Some(k) => is_first_unconsumed(outcomes@, k as int),
            None => !has_unconsumed(outcomes@),
        },
{
    let n: usize = outcomes.len();
    let mut i: usize = 0;
    while i < n
        invariant
            n == outcomes@.len(),
            i <= n,
            forall|j: int| 0 <= j < i ==> (#[trigger] outcomes@[j]).consumed,
        decreases n - i,
    {
        if !outcomes[i].consumed {
            return Some(i);
        }
        i = i + 1;
    }
    None
}

/// Finds where a fresh job identifier belongs in the sorted store, or
/// reports that it is already present.
fn insertion_point(outcomes: &Vec<OutcomeEntry>, job_id: &str) -> (r: Result<usize, ContractError>)
    requires
        sorted_by_job_id(outcomes@),
    ensures
        match r {
            Err(e) => e == ContractError::JobIdAlreadyPresent && has_job(outcomes@, job_id@),
            Ok(i) => {
                &&& i <= outcomes@.len()
                &&& !has_job(outcomes@, job_id@)
                &&& forall|k: int| 0 <= k < i
                    ==> lex_lt((#[trigger] outcomes@[k]).job_id@, job_id@)
                &&& i < outcomes@.len() ==> lex_lt(job_id@, outcomes@[i as int].job_id@)
            },
        },
{
    let n: usize = outcomes.len();
    let mut i: usize = 0;
    while i < n
        invariant
            n == outcomes@.len(),
            i <= n,
            sorted_by_job_id(outcomes@),
            forall|k: int| 0 <= k < i ==> lex_lt((#[trigger] outcomes@[k]).job_id@, job_id@),
        decreases n - i,
    {
        let c: i32 = str_cmp(outcomes[i].job_id.as_str(), job_id);
        if c == 0 {
            assert(has_job(outcomes@, job_id@));
            return Err(ContractError::JobIdAlreadyPresent);
        }
        if c > 0 {
            proof {
                lemma_no_job_here(outcomes@, job_id@, i as int);
            }
            return Ok(i);
        }
        i = i + 1;
    }
    proof {
        lemma_no_job_here(outcomes@, job_id@, n as int);
    }
    Ok(n)
}

/// If every slot before `i` is lexicographically below the identifier and
/// slot `i`, if any, is above it, the identifier is not in the store.
proof fn lemma_no_job_here(s: Seq<OutcomeEntry>, id: Seq<char>, i: int)
    requires
        sorted_by_job_id(s),
        0 <= i <= s.len(),
        forall|k: int| 0 <= k < i ==> lex_lt((#[trigger] s[k]).job_id@, id),
        i < s.len() ==> lex_lt(id, s[i].job_id@),
    ensures
        !has_job(s, id),
{
    if has_job(s, id) {
        let w = job_index(s, id);
        assert(0 <= w < s.len() && s[w].job_id@ == id);
        if w < i {
            lemma_lex_irrefl(id);
        } else if w == i {
            lemma_lex_irrefl(id);
        } else {
            assert(lex_lt(s[i].job_id@, s[w].job_id@));
            lemma_lex_trans(id, s[i].job_id@, s[w].job_id@);
            lemma_lex_irrefl(id);
        }
    }
}

/// Stores a freshly delivered outcome under its job identifier, keeping
/// the store sorted. Rejected, with nothing changed, exactly when the job
/// identifier is already present — a stored outcome is never overwritten.
pub fn insert_outcome(outcomes: &mut Vec<OutcomeEntry>, job_id: String, randomness: Vec<u8>) -> (r:
    Result<(), ContractError>)
    requires
        outcomes_wf(old(outcomes)@),
        randomness@.len() == 32,
    ensures
        outcomes_wf(final(outcomes)@),
        r is Ok <==> !has_job(old(outcomes)@, job_id@),
        r is Err ==> r == Err::<(), ContractError>(ContractError::JobIdAlreadyPresent)
            && *final(outcomes) == *old(outcomes),
        r is Ok ==> {
            &&& final(outcomes)@.len() == old(outcomes)@.len() + 1
            &&& has_job(final(outcomes)@, job_id@)
            &&& outcome_of(final(outcomes)@, job_id@).randomness@ == randomness@
            &&& outcome_of(final(outcomes)@, job_id@).consumed == false
            &&& forall|id: Seq<char>| id != job_id@
                ==> #[trigger] same_job(old(outcomes)@, final(outcomes)@, id)
        },
{
    let i: usize = match insertion_point(outcomes, job_id.as_str()) {
        Err(e) => {
            return Err(e);
        },
        Ok(i) => i,
    };
    let ghost pre = outcomes@;
    let ghost ins = i as int;
    let entry = OutcomeEntry { job_id, randomness, consumed: false };
    outcomes.insert(i, entry);
    proof {
        let post = outcomes@;
        assert(sorted_by_job_id(post)) by {
            assert forall|p: int, q: int| 0 <= p < q < post.len() implies lex_lt(
                post[p].job_id@,
                post[q].job_id@,
            ) by {
                if q < ins {
                    assert(post[p] == pre[p] && post[q] == pre[q]);
                } else if q == ins {
                    assert(post[p] == pre[p]);
                } else if p < ins {
                    assert(post[p] == pre[p] && post[q] == pre[q - 1]);
                    if p < q - 1 {
                    } else {
                        assert(p == q - 1 && p >= ins);
                    }
                } else if p == ins {
                    assert(post[q] == pre[q - 1] && q - 1 >= ins);
                    if q - 1 == ins {
                    } else {
                        lemma_lex_trans(
                            post[p].job_id@,
                            pre[ins].job_id@,
                            pre[q - 1].job_id@,
                        );
                    }
                } else {
                    assert(post[p] == pre[p - 1] && post[q] == pre[q - 1]);
                }
            }
        }
        assert(outcomes_wf(post)) by {
            assert forall|t: int| 0 <= t < post.len() implies (#[trigger] post[t]).randomness@.len()
                == 32 by {
                if t < ins {
                    assert(post[t] == pre[t]);
                } else if t > ins {
                    assert(post[t] == pre[t - 1]);
                }
            }
        }
        lemma_job_at(post, ins);
        assert forall|id: Seq<char>| id != post[ins].job_id@ implies #[trigger] same_job(
            pre,
            post,
            id,
        ) by {
            lemma_sorted_unique(pre);
            lemma_sorted_unique(post);
            if has_job(pre, id) {
                let w = job_index(pre, id);
                assert(0 <= w < pre.len() && pre[w].job_id@ == id);
                if w < ins {
                    assert(post[w] == pre[w]);
                    lemma_job_at(post, w);
                    lemma_job_at(pre, w);
                } else {
                    assert(post[w + 1] == pre[w]);
                    lemma_job_at(post, w + 1);
                    lemma_job_at(pre, w);
                }
            } else if has_job(post, id) {
                let w = job_index(post, id);
                assert(0 <= w < post.len() && post[w].job_id@ == id);
                assert(w != ins);
                if w < ins {
                    assert(post[w] == pre[w]);
                    assert(has_job(pre, id));
                } else {
                    assert(post[w] == pre[w - 1]);
                    assert(has_job(pre, id));
                }
            }
        }
    }
    Ok(())
}

} // verus!

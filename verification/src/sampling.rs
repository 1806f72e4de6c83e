//! The sampling policy over logit scores: the repeat penalty that
//! down-weights recently generated tokens, and greedy (argmax) selection at
//! temperature zero. Scores are fixed-point surrogates of the model's raw
//! logits; penalties and temperatures are carried in thousandths.
use vstd::prelude::*;

use vstd::arithmetic::div_mod::lemma_div_multiples_vanish;

verus! {

/// Largest magnitude a logit score may carry, so penalty arithmetic cannot
/// overflow.
pub const MAX_LOGIT_ABS: i64 = 1000000000000;

/// The penalty value (in thousandths) at which the repeat penalty is
/// disabled.
pub const PENALTY_DISABLED_MILLI: u64 = 1000;

/// Largest accepted penalty, in thousandths.
pub const MAX_PENALTY_MILLI: u64 = 1000000;

/// One logit scaled by the repeat penalty: a non-negative score is divided by
/// the penalty, a negative one multiplied, both in thousandths and truncating
/// toward zero.
pub open spec fn spec_penalized_logit(l: int, penalty_milli: int) -> int {
    if l >= 0 {
        l * 1000 / penalty_milli
    } else {
        -((-l) * penalty_milli / 1000)
    }
}

/// One logit after the penalty pass: scaled when its token sits in the recent
/// window, untouched otherwise.
pub open spec fn spec_penalized(l: i64, penalty_milli: u64, hit: bool) -> int {
    if hit {
        spec_penalized_logit(l as int, penalty_milli as int)
    } else {
        l as int
    }
}

/// The whole logit row after the penalty pass against a window of recent
/// tokens.
pub open spec fn spec_penalized_seq(logits: Seq<i64>, penalty_milli: u64, window: Seq<u32>) -> Seq<
    int,
> {
    Seq::new(logits.len(), |i: int| spec_penalized(logits[i], penalty_milli, window.contains(i as u32)))
}

/// `k` is the index the greedy policy picks: it holds a maximal score, and is
/// the last index to do so.
pub open spec fn spec_is_argmax(s: Seq<int>, k: int) -> bool {
    &&& 0 <= k < s.len()
    &&& forall|j: int| 0 <= j < s.len() ==> s[j] <= s[k]
    &&& forall|j: int| k < j < s.len() ==> s[j] < s[k]
}

/// The scores as mathematical integers.
pub open spec fn spec_scores(logits: Seq<i64>) -> Seq<int> {
    Seq::new(logits.len(), |i: int| logits[i] as int)
}

fn window_contains(window: &Vec<u32>, t: u32) -> (r: bool)
    ensures
        r == window@.contains(t),
{
    let n = window.len();
    let mut i: usize = 0;
    while i < n
        invariant
            0 <= i <= n,
            n == window@.len(),
            forall|j: int| 0 <= j < i ==> window@[j] != t,
        decreases n - i,
    {
        if window[i] == t {
            return true;
        }
        i += 1;
    }
    false
}

/// Scales down the score of every token that occurs in the recent window,
/// leaving all other scores untouched.
pub fn apply_repeat_penalty(logits: &Vec<i64>, penalty_milli: u64, window: &Vec<u32>) -> (r: Vec<
    i64,
>)
    requires
        1 <= penalty_milli <= MAX_PENALTY_MILLI,
        logits@.len() <= u32::MAX,
        forall|i: int|
            0 <= i < logits@.len() ==> -MAX_LOGIT_ABS <= #[trigger] logits@[i] <= MAX_LOGIT_ABS,
    ensures
        r@.len() == logits@.len(),
        forall|i: int|
            0 <= i < logits@.len() ==> #[trigger] r@[i] as int == spec_penalized(
                logits@[i],
                penalty_milli,
                window@.contains(i as u32),
            ),
{
    let n = logits.len();
    let mut out: Vec<i64> = Vec::new();
    let mut i: usize = 0;
    while i < n
        invariant
            0 <= i <= n,
            n == logits@.len(),
            n <= u32::MAX,
            1 <= penalty_milli <= MAX_PENALTY_MILLI,
            forall|j: int|
                0 <= j < n ==> -MAX_LOGIT_ABS <= #[trigger] logits@[j] <= MAX_LOGIT_ABS,
            out@.len() == i,
            forall|j: int|
                0 <= j < i ==> #[trigger] out@[j] as int == spec_penalized(
                    logits@[j],
                    penalty_milli,
                    window@.contains(j as u32),
                ),
        decreases n - i,
    {
        let l = logits[i];
        let hit = window_contains(window, i as u32);
        let v: i64 = if !hit {
            l
        } else if l >= 0 {
            l * 1000 / (penalty_milli as i64)
        } else {
            let neg: i64 = -l;
            proof {
                assert((neg as int) * (penalty_milli as int) <= (MAX_LOGIT_ABS as int) * (
                MAX_PENALTY_MILLI as int)) by (nonlinear_arith)
                    requires
                        0 <= neg as int <= MAX_LOGIT_ABS as int,
                        0 <= penalty_milli as int <= MAX_PENALTY_MILLI as int,
                ;
                assert((neg as int) * (penalty_milli as int) >= 0) by (nonlinear_arith)
                    requires
                        neg as int >= 0,
                        penalty_milli as int >= 0,
                ;
            }
            -(neg * (penalty_milli as i64) / 1000)
        };
        proof {
            assert(v as int == spec_penalized(logits@[i as int], penalty_milli, window@.contains(
                i as u32,
            )));
        }
        out.push(v);
        i += 1;
    }
    out
}

/// The greedy choice: the index of the maximal score, the last one on ties,
/// as a token id.
pub fn argmax_token(logits: &Vec<i64>) -> (r: u32)
    requires
        0 < logits@.len() <= u32::MAX,
    ensures
        spec_is_argmax(spec_scores(logits@), r as int),
{
    let n = logits.len();
    let mut best: usize = 0;
    let mut i: usize = 1;
    while i < n
        invariant
            0 <= best < i <= n,
            n == logits@.len(),
            forall|j: int| 0 <= j < i ==> logits@[j] <= logits@[best as int],
            forall|j: int| best < j < i ==> logits@[j] < logits@[best as int],
        decreases n - i,
    {
        if logits[i] >= logits[best] {
            best = i;
        }
        i += 1;
    }
    best as u32
}

/// Greedy selection is a function of the scores alone: any two indices that
/// both satisfy the argmax characterization are equal.
pub proof fn lemma_argmax_unique(s: Seq<int>, k1: int, k2: int)
    requires
        spec_is_argmax(s, k1),
        spec_is_argmax(s, k2),
    ensures
        k1 == k2,
{
    if k1 < k2 {
        assert(s[k2] < s[k1]);
        assert(s[k1] <= s[k2]);
    }
    if k2 < k1 {
        assert(s[k1] < s[k2]);
        assert(s[k2] <= s[k1]);
    }
}

/// A token sequence follows a trace of per-step score rows greedily when each
/// token is the argmax of its row.
pub open spec fn spec_follows_greedy(trace: Seq<Seq<int>>, toks: Seq<u32>) -> bool {
    &&& toks.len() == trace.len()
    &&& forall|i: int| 0 <= i < trace.len() ==> spec_is_argmax(#[trigger] trace[i], toks[i] as int)
}

/// Greedy determinism: at temperature zero the chosen token is the argmax of
/// the step's scores, a function of the scores alone — the seed plays no
/// part. Two runs over the same per-step scores therefore produce the same
/// token sequence.
pub proof fn lemma_greedy_deterministic(trace: Seq<Seq<int>>, run1: Seq<u32>, run2: Seq<u32>)
    requires
        spec_follows_greedy(trace, run1),
        spec_follows_greedy(trace, run2),
    ensures
        run1 == run2,
{
    assert forall|i: int| 0 <= i < run1.len() implies run1[i] == run2[i] by {
        lemma_argmax_unique(trace[i], run1[i] as int, run2[i] as int);
    }
    assert(run1 =~= run2);
}

/// A disabled penalty leaves one score untouched, as does an empty window.
pub proof fn lemma_penalized_identity(l: i64, penalty_milli: u64, hit: bool)
    ensures
        spec_penalized(l, PENALTY_DISABLED_MILLI, hit) == l as int,
        spec_penalized(l, penalty_milli, false) == l as int,
{
    if hit {
        if l >= 0 {
            lemma_div_multiples_vanish(l as int, 1000);
            assert((l as int) * 1000 == 1000 * (l as int)) by (nonlinear_arith);
        } else {
            lemma_div_multiples_vanish(-(l as int), 1000);
            assert((-(l as int)) * 1000 == 1000 * (-(l as int))) by (nonlinear_arith);
        }
    }
}

/// Repeat-penalty no-op: with the penalty at 1.0 the penalty pass returns the
/// scores unchanged, exactly as a run with an empty recent window does, so
/// the sampling decision is taken on unmodified scores either way.
pub proof fn lemma_penalty_noop(logits: Seq<i64>, window: Seq<u32>, penalty_milli: u64)
    ensures
        spec_penalized_seq(logits, PENALTY_DISABLED_MILLI, window) =~= spec_scores(logits),
        spec_penalized_seq(logits, penalty_milli, Seq::<u32>::empty()) =~= spec_scores(logits),
{
    assert forall|i: int| 0 <= i < logits.len() implies spec_penalized(
        logits[i],
        PENALTY_DISABLED_MILLI,
        window.contains(i as u32),
    ) == logits[i] as int by {
        lemma_penalized_identity(logits[i], PENALTY_DISABLED_MILLI, window.contains(i as u32));
    }
    assert forall|i: int| 0 <= i < logits.len() implies spec_penalized(
        logits[i],
        penalty_milli,
        Seq::<u32>::empty().contains(i as u32),
    ) == logits[i] as int by {
        assert(!Seq::<u32>::empty().contains(i as u32));
        lemma_penalized_identity(logits[i], penalty_milli, false);
    }
}

} // verus!

//! Proved laws of the scheduler.
//!
//! The laws speak about `SchedState`, the ghost snapshot that `get_next`,
//! `rotate` and `refill_limits` are specified against: quota conservation
//! over a refill-free window, round-robin fairness under equal quotas, and
//! rotation monotonicity.

use vstd::prelude::*;

use crate::round_robin::RpcServer;
use crate::round_robin::SchedState;
use crate::round_robin::consume_at;
use crate::round_robin::find_from;
use crate::round_robin::lemma_exhausted_all_zero;
use crate::round_robin::next_idx;
use crate::round_robin::pick_find;
use crate::round_robin::pick_state;
use crate::round_robin::rotate_state;
use crate::round_robin::state_wf;

verus! {

/// Scheduler snapshot after `m` successive `get_next` calls with no refill
/// in between.
pub open spec fn run_picks(s: SchedState, m: nat) -> SchedState
    decreases m,
{
    if m == 0 {
        s
    } else {
        run_picks(pick_state(s), (m - 1) as nat)
    }
}

/// How many of `m` successive `get_next` calls return the upstream at slot
/// `i`.
pub open spec fn count_returns(s: SchedState, m: nat, i: int) -> nat
    decreases m,
{
    if m == 0 {
        0
    } else {
        (if pick_find(s) == Some(i) {
            1nat
        } else {
            0nat
        }) + count_returns(pick_state(s), (m - 1) as nat, i)
    }
}

/// Tokens held by the first `j` upstreams together.
pub open spec fn tokens_upto(urls: Seq<RpcServer>, j: int) -> int
    decreases j,
{
    if j <= 0 {
        0
    } else {
        tokens_upto(urls, j - 1) + urls[j - 1].current_limit
    }
}

/// Tokens held by all upstreams together.
pub open spec fn total_tokens(s: SchedState) -> int {
    tokens_upto(s.urls, s.urls.len() as int)
}

/// A successful probe lands in range, on an upstream that holds a token.
proof fn lemma_find_from_some(urls: Seq<RpcServer>, c: int, p: nat)
    requires
        0 <= c < urls.len(),
        find_from(urls, c, p) is Some,
    ensures
        find_from(urls, c, p) matches Some(j) && 0 <= j < urls.len() && urls[j].current_limit
            > 0,
    decreases p,
{
    if urls[c].current_limit > 0 {
    } else {
        lemma_find_from_some(urls, next_idx(c, urls.len() as int), (p - 1) as nat);
    }
}

/// One pick preserves well-formedness, the upstream count, and every URL and
/// quota; only the chosen upstream's token count moves, down by one.
pub proof fn lemma_pick_state_wf(s: SchedState)
    requires
        state_wf(s),
    ensures
        state_wf(pick_state(s)),
        pick_state(s).urls.len() == s.urls.len(),
        forall|i: int|
            0 <= i < s.urls.len() ==> {
                &&& (#[trigger] pick_state(s).urls[i]).url == s.urls[i].url
                &&& pick_state(s).urls[i].request_limit == s.urls[i].request_limit
            },
        pick_find(s) matches Some(j) ==> {
            &&& 0 <= j < s.urls.len()
            &&& s.urls[j].current_limit > 0
            &&& pick_state(s).urls[j].current_limit == s.urls[j].current_limit - 1
            &&& forall|i: int|
                0 <= i < s.urls.len() && i != j ==> (#[trigger] pick_state(
                    s,
                ).urls[i]).current_limit == s.urls[i].current_limit
        },
        pick_find(s) is None ==> pick_state(s) == s,
{
    match pick_find(s) {
        Some(j) => {
            lemma_find_from_some(s.urls, s.cursor, s.urls.len() as nat);
        },
        None => {},
    }
}

/// Summing an updated sequence: only a changed slot below the cut moves the
/// sum, by the difference at that slot.
proof fn lemma_tokens_upto_update(urls: Seq<RpcServer>, j: int, v: RpcServer, k: int)
    requires
        0 <= j < urls.len(),
        k <= urls.len(),
    ensures
        tokens_upto(urls.update(j, v), k) == tokens_upto(urls, k) + (if j < k {
            v.current_limit - urls[j].current_limit
        } else {
            0
        }),
    decreases k,
{
    if k > 0 {
        lemma_tokens_upto_update(urls, j, v, k - 1);
    }
}

/// Prefix sums of token counts are never negative.
proof fn lemma_tokens_nonneg(urls: Seq<RpcServer>, k: int)
    ensures
        tokens_upto(urls, k) >= 0,
    decreases k,
{
    if k > 0 {
        lemma_tokens_nonneg(urls, k - 1);
    }
}

/// A zero total means every single upstream is drained.
proof fn lemma_tokens_zero(urls: Seq<RpcServer>, k: int)
    requires
        tokens_upto(urls, k) == 0,
    ensures
        forall|i: int| 0 <= i < k ==> urls[i].current_limit == 0,
    decreases k,
{
    if k > 0 {
        lemma_tokens_nonneg(urls, k - 1);
        lemma_tokens_zero(urls, k - 1);
    }
}

/// If every upstream is drained, the total is zero.
proof fn lemma_tokens_all_zero(urls: Seq<RpcServer>, k: int)
    requires
        forall|i: int| 0 <= i < k ==> urls[i].current_limit == 0,
    ensures
        tokens_upto(urls, k) == 0,
    decreases k,
{
    if k > 0 {
        lemma_tokens_all_zero(urls, k - 1);
    }
}

/// When every upstream holds exactly `k` tokens, the total over `j` of them
/// is `j * k`.
proof fn lemma_tokens_const(urls: Seq<RpcServer>, j: int, k: nat)
    requires
        0 <= j <= urls.len(),
        forall|i: int| 0 <= i < urls.len() ==> urls[i].current_limit == k,
    ensures
        tokens_upto(urls, j) == j * k,
    decreases j,
{
    if j > 0 {
        lemma_tokens_const(urls, j - 1, k);
        assert(urls[j - 1].current_limit == k);
        assert(tokens_upto(urls, j) == (j - 1) * k + k);
        assert((j - 1) * k + k == j * k) by (nonlinear_arith);
    } else {
        assert(j * k == 0) by (nonlinear_arith)
            requires
                j == 0,
        ;
    }
}

/// A successful pick takes exactly one token off the total; a failed pick
/// leaves the state alone.
proof fn lemma_total_pick(s: SchedState)
    requires
        state_wf(s),
    ensures
        pick_find(s) is Some ==> total_tokens(pick_state(s)) == total_tokens(s) - 1,
        pick_find(s) is None ==> pick_state(s) == s,
        total_tokens(s) > 0 ==> pick_find(s) is Some,
{
    let len = s.urls.len() as int;
    match pick_find(s) {
        Some(j) => {
            lemma_find_from_some(s.urls, s.cursor, s.urls.len() as nat);
            lemma_tokens_upto_update(
                s.urls,
                j,
                RpcServer {
                    url: s.urls[j].url,
                    current_limit: (s.urls[j].current_limit - 1) as u32,
                    request_limit: s.urls[j].request_limit,
                },
                len,
            );
            assert(pick_state(s).urls == consume_at(s.urls, j));
        },
        None => {
            lemma_exhausted_all_zero(s);
            lemma_tokens_all_zero(s.urls, len);
        },
    }
}

/// Quota conservation (a refill-free window): over `m` successive picks, the
/// picks that return upstream `i` and the tokens upstream `i` still holds
/// add up to the tokens it held when the window began — so the picks
/// returning `i` never outnumber that starting count.
pub proof fn lemma_window_quota(s: SchedState, m: nat, i: int)
    requires
        state_wf(s),
        0 <= i < s.urls.len(),
    ensures
        state_wf(run_picks(s, m)),
        run_picks(s, m).urls.len() == s.urls.len(),
        count_returns(s, m, i) + run_picks(s, m).urls[i].current_limit == s.urls[i].current_limit,
        count_returns(s, m, i) <= s.urls[i].current_limit,
    decreases m,
{
    if m > 0 {
        lemma_pick_state_wf(s);
        lemma_window_quota(pick_state(s), (m - 1) as nat, i);
    }
}

/// Over `m <= total` picks, every pick succeeds and each takes one token off
/// the total.
proof fn lemma_total_run(s: SchedState, m: nat)
    requires
        state_wf(s),
        m <= total_tokens(s),
    ensures
        state_wf(run_picks(s, m)),
        run_picks(s, m).urls.len() == s.urls.len(),
        total_tokens(run_picks(s, m)) == total_tokens(s) - m,
        forall|t: nat| t < m ==> #[trigger] pick_find(run_picks(s, t)) is Some,
    decreases m,
{
    if m > 0 {
        lemma_total_pick(s);
        lemma_pick_state_wf(s);
        lemma_total_run(pick_state(s), (m - 1) as nat);
        assert forall|t: nat| t < m implies #[trigger] pick_find(run_picks(s, t)) is Some by {
            if t == 0 {
                assert(run_picks(s, 0) == s);
            } else {
                assert(run_picks(s, t) == run_picks(pick_state(s), (t - 1) as nat));
            }
        }
    }
}

/// Round-robin fairness under equal quotas: with `n` upstreams all holding a
/// full budget of `k` tokens, `n * k` successive picks all succeed, drain
/// every budget to zero, and return each upstream exactly `k` times.
pub proof fn lemma_equal_quota_fairness(s: SchedState, n: nat, k: nat, i: int)
    requires
        state_wf(s),
        s.urls.len() == n,
        forall|j: int|
            0 <= j < n ==> {
                &&& (#[trigger] s.urls[j]).request_limit == k
                &&& s.urls[j].current_limit == k
            },
        0 <= i < n,
    ensures
        forall|t: nat| t < n * k ==> #[trigger] pick_find(run_picks(s, t)) is Some,
        run_picks(s, n * k).urls[i].current_limit == 0,
        count_returns(s, n * k, i) == k,
{
    lemma_tokens_const(s.urls, n as int, k);
    assert(total_tokens(s) == n * k) by (nonlinear_arith)
        requires
            total_tokens(s) == (n as int) * (k as nat),
    ;
    lemma_total_run(s, n * k);
    lemma_tokens_zero(run_picks(s, n * k).urls, n as int);
    lemma_window_quota(s, n * k, i);
}

/// Rotation monotonicity: two successive `rotate` calls with no pick in
/// between move no tokens and advance the cursor by two, modulo the number
/// of upstreams.
pub proof fn lemma_rotate_rotate(s: SchedState)
    requires
        state_wf(s),
    ensures
        rotate_state(rotate_state(s)).urls == s.urls,
        rotate_state(rotate_state(s)).cursor == (s.cursor + 2) % (s.urls.len() as int),
{
    let len = s.urls.len() as int;
    let c = s.cursor;
    if c + 2 < len {
        vstd::arithmetic::div_mod::lemma_small_mod((c + 2) as nat, len as nat);
    } else if c + 2 == len {
        vstd::arithmetic::div_mod::lemma_mod_self_0(len);
    } else {
        if len >= 2 {
            vstd::arithmetic::div_mod::lemma_mod_multiples_vanish(1, 1, len);
            vstd::arithmetic::div_mod::lemma_small_mod(1nat, len as nat);
        }
    }
}

} // verus!

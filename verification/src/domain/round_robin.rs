//! What a run of requests through a balancer looks like: the order in which
//! workers are served, and that the order repeats with every worker once.

use vstd::prelude::*;
use crate::domain::load_balancer::BalancerView;

verus! {

/// The state of a balancer after `k` requests have been handed out from `v`,
/// each by `LoadBalancer::get_worker`.
pub open spec fn after_requests(v: BalancerView, k: nat) -> BalancerView
    decreases k,
{
    if k == 0 {
        v
    } else {
        after_requests(v, (k - 1) as nat).advance()
    }
}

/// Within the first round of requests from `v` (as many requests as there
/// are workers), some request goes to the worker at position `i`.
pub open spec fn served_within_round(v: BalancerView, i: int) -> bool {
    exists|k: nat| k < v.workers.len() && #[trigger] after_requests(v, k).next == i
}

/// For a value below twice the modulus, the remainder is the value itself or
/// the value less the modulus.
proof fn lemma_mod_below_twice(x: int, n: int)
    requires
        0 < n,
        0 <= x < 2 * n,
    ensures
        x % n == (if x < n { x } else { x - n }),
{
    if x < n {
        vstd::arithmetic::div_mod::lemma_small_mod(x as nat, n as nat);
    } else {
        vstd::arithmetic::div_mod::lemma_mod_add_multiples_vanish(x - n, n);
        vstd::arithmetic::div_mod::lemma_small_mod((x - n) as nat, n as nat);
    }
}

/// Round-robin order: after `k` requests the workers are unchanged and the
/// next worker is the one `k` places further on than at the start, counted
/// round the list; so the `k`-th request (from 0) goes to
/// `workers[(start + k) % n]`.
pub proof fn lemma_round_robin_order(v: BalancerView, k: nat)
    requires
        v.wf(),
    ensures
        after_requests(v, k).wf(),
        after_requests(v, k).workers == v.workers,
        after_requests(v, k).next == (v.next + k) % (v.workers.len() as int),
        after_requests(v, k).chosen() == v.workers[(v.next + k) % (v.workers.len() as int)],
    decreases k,
{
    let n = v.workers.len() as int;
    if k == 0 {
        vstd::arithmetic::div_mod::lemma_small_mod(v.next as nat, n as nat);
    } else {
        lemma_round_robin_order(v, (k - 1) as nat);
        vstd::arithmetic::div_mod::lemma_add_mod_noop_right(1, v.next + k - 1, n);
        vstd::arithmetic::div_mod::lemma_mod_bound(v.next + k, n);
    }
}

/// The order repeats: after as many requests as there are workers, the
/// balancer is back where it started.
pub proof fn lemma_round_robin_period(v: BalancerView)
    requires
        v.wf(),
    ensures
        after_requests(v, v.workers.len()) == v,
{
    let n = v.workers.len() as int;
    lemma_round_robin_order(v, v.workers.len());
    lemma_mod_below_twice(v.next + n, n);
}

/// Fairness: in any run of as many requests as there are workers, each
/// worker position is served exactly once.
pub proof fn lemma_round_robin_fair(v: BalancerView)
    requires
        v.wf(),
    ensures
        forall|j: nat, k: nat|
            j < v.workers.len() && k < v.workers.len() && j != k ==> #[trigger] after_requests(
                v,
                j,
            ).next != #[trigger] after_requests(v, k).next,
        forall|i: int| 0 <= i < v.workers.len() ==> #[trigger] served_within_round(v, i),
{
    let n = v.workers.len() as int;
    assert forall|j: nat, k: nat|
        j < v.workers.len() && k < v.workers.len() && j != k implies #[trigger] after_requests(
        v,
        j,
    ).next != #[trigger] after_requests(v, k).next by {
        lemma_round_robin_order(v, j);
        lemma_round_robin_order(v, k);
        lemma_mod_below_twice(v.next + j, n);
        lemma_mod_below_twice(v.next + k, n);
    }
    assert forall|i: int| 0 <= i < v.workers.len() implies #[trigger] served_within_round(v, i) by {
        let k: nat = if i >= v.next {
            (i - v.next) as nat
        } else {
            (i + n - v.next) as nat
        };
        lemma_round_robin_order(v, k);
        lemma_mod_below_twice(v.next + k, n);
        assert(after_requests(v, k).next == i);
    }
}

} // verus!

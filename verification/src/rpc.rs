//! One RPC client together with the limits that its provider imposes.

use std::sync::Arc;
use vstd::prelude::*;

use solana_rpc_client::nonblocking::rpc_client::RpcClient;

use crate::endpoint::RpcEndpoint;
use crate::limits::{lemma_admitted_batch_fits, lemma_budget_kept, SolanaClientRateLimit};

verus! {

/// The asynchronous Solana RPC client of `solana-rpc-client`, carried as an opaque value.
#[verifier::external_type_specification]
#[verifier::external_body]
pub struct ExRpcClient(RpcClient);

/// A batch of requests went through a list of limits, each reading the clock at `nows[i]`:
/// with `ok`, every limit admitted it and was charged its cost; otherwise limit `k` was the
/// first to refuse, the limits up to `k` moved to their current interval and the limits after
/// `k` were not consulted.
pub open spec fn executed_with(
    before: Seq<SolanaClientRateLimit>,
    after: Seq<SolanaClientRateLimit>,
    eps: Seq<RpcEndpoint>,
    ok: bool,
    nows: Seq<i64>,
) -> bool {
    &&& nows.len() == before.len()
    &&& after.len() == before.len()
    &&& forall|i: int| 0 <= i < nows.len() ==> nows[i] >= 0
    &&& if ok {
        forall|i: int|
            0 <= i < before.len() ==> {
                &&& (#[trigger] before[i]).at_window(nows[i]).admits(eps)
                &&& after[i] == before[i].at_window(nows[i]).with_applied(eps)
            }
    } else {
        exists|k: int|
            0 <= k < before.len() && !(#[trigger] before[k].at_window(nows[k])).admits(eps)
                && after[k] == before[k].at_window(nows[k]) && (forall|i: int|
                0 <= i < k ==> {
                    &&& (#[trigger] before[i]).at_window(nows[i]).admits(eps)
                    &&& after[i] == before[i].at_window(nows[i])
                }) && (forall|i: int| k < i < before.len() ==> after[i] == #[trigger] before[i])
    }
}

/// A batch of requests went through a list of limits at some readings of the clock (see
/// [`executed_with`]).
pub open spec fn executed(
    before: Seq<SolanaClientRateLimit>,
    after: Seq<SolanaClientRateLimit>,
    eps: Seq<RpcEndpoint>,
    ok: bool,
) -> bool {
    exists|nows: Seq<i64>| #[trigger] executed_with(before, after, eps, ok, nows)
}

/// Every limit of the list that has a zero interval comes after a limit that refuses the batch
/// whatever the time, so that consulting the list in order never divides by zero.
pub open spec fn limits_ready(limits: Seq<SolanaClientRateLimit>, eps: Seq<RpcEndpoint>) -> bool {
    forall|i: int|
        0 <= i < limits.len() && (#[trigger] limits[i]).interval == 0 ==> exists|j: int|
            0 <= j < i && (#[trigger] limits[j]).always_refuses(eps)
}

/// Every limit of the list admits the batch whatever the time, and none has a zero interval:
/// the batch goes through at every reading of the clock.
pub open spec fn always_accepts(limits: Seq<SolanaClientRateLimit>, eps: Seq<RpcEndpoint>) -> bool {
    forall|i: int|
        0 <= i < limits.len() ==> (#[trigger] limits[i]).interval != 0 && limits[i].always_admits(
            eps,
        )
}

/// A list of limits that accepts a batch whatever the time never refuses it.
pub proof fn lemma_always_accepted(
    before: Seq<SolanaClientRateLimit>,
    after: Seq<SolanaClientRateLimit>,
    eps: Seq<RpcEndpoint>,
)
    requires
        always_accepts(before, eps),
    ensures
        !executed(before, after, eps, false),
{
    if executed(before, after, eps, false) {
        let nows = choose|nows: Seq<i64>| #[trigger] executed_with(before, after, eps, false, nows);
        let k = choose|k: int|
            0 <= k < before.len() && !(#[trigger] before[k].at_window(nows[k])).admits(eps)
                && after[k] == before[k].at_window(nows[k]) && (forall|i: int|
                0 <= i < k ==> {
                    &&& (#[trigger] before[i]).at_window(nows[i]).admits(eps)
                    &&& after[i] == before[i].at_window(nows[i])
                }) && (forall|i: int| k < i < before.len() ==> after[i] == #[trigger] before[i]);
        before[k].lemma_admission_at_any_time(eps, nows[k]);
    }
}

/// A single Solana RPC client. Includes its limits to calculate usage.
pub struct SolanaClientRpc {
    pub rpc_client: Arc<RpcClient>,
    /// The list of all limits applied to the RPC client.
    /// All limits must succeed in order to send a request.
    pub limits: Vec<SolanaClientRateLimit>,
}

impl SolanaClientRpc {
    /// Creates a `SolanaClientRpc` without limits.
    pub fn new(rpc_client: Arc<RpcClient>) -> (rpc: Self)
        ensures
            rpc.rpc_client == rpc_client,
            rpc.limits@ == Seq::<SolanaClientRateLimit>::empty(),
    {
        SolanaClientRpc { rpc_client, limits: Vec::new() }
    }

    /// Adds a [`SolanaClientRateLimit`] to the list of limits.
    pub fn add_limit(self, limit: SolanaClientRateLimit) -> (rpc: Self)
        ensures
            rpc.rpc_client == self.rpc_client,
            rpc.limits@ == self.limits@.push(limit),
    {
        let mut rpc = self;
        rpc.limits.push(limit);
        rpc
    }

    /// Whether consulting the limits for the batch, in order, can never divide by a zero
    /// interval (see [`limits_ready`]).
    pub fn is_ready_for(&self, endpoints: &[RpcEndpoint]) -> (ready: bool)
        ensures
            ready == limits_ready(self.limits@, endpoints@),
    {
        let mut refused_before = false;
        let mut i: usize = 0;
        while i < self.limits.len()
            invariant
                i <= self.limits.len(),
                refused_before == exists|j: int|
                    0 <= j < i && (#[trigger] self.limits@[j]).always_refuses(endpoints@),
                forall|k: int|
                    0 <= k < i && (#[trigger] self.limits@[k]).interval == 0 ==> exists|j: int|
                        0 <= j < k && (#[trigger] self.limits@[j]).always_refuses(endpoints@),
            decreases self.limits.len() - i,
        {
            if self.limits[i].interval == 0 && !refused_before {
                return false;
            }
            let refuses = self.limits[i].refuses_always(endpoints);
            proof {
                if refuses {
                    assert(self.limits@[i as int].always_refuses(endpoints@));
                }
            }
            refused_before = refused_before || refuses;
            i += 1;
        }
        true
    }

    /// Whether every limit admits the batch whatever the time (see [`always_accepts`]).
    pub fn accepts_always(&self, endpoints: &[RpcEndpoint]) -> (accepts: bool)
        ensures
            accepts == always_accepts(self.limits@, endpoints@),
    {
        let mut i: usize = 0;
        while i < self.limits.len()
            invariant
                i <= self.limits.len(),
                forall|k: int|
                    0 <= k < i ==> (#[trigger] self.limits@[k]).interval != 0
                        && self.limits@[k].always_admits(endpoints@),
            decreases self.limits.len() - i,
        {
            if self.limits[i].interval == 0 || !self.limits[i].admits_always(endpoints) {
                return false;
            }
            i += 1;
        }
        true
    }

    /// Process the execution of Solana RPC endpoints: checks every limit in order, reading the
    /// clock for each, and only when all of them admit the batch charges it to all of them.
    pub fn execute_endpoints(&mut self, endpoints: &[RpcEndpoint]) -> (ok: bool)
        requires
            limits_ready(old(self).limits@, endpoints@),
        ensures
            final(self).rpc_client == old(self).rpc_client,
            executed(old(self).limits@, final(self).limits@, endpoints@, ok),
    {
        let ghost before = old(self).limits@;
        let ghost mut nows: Seq<i64> = Seq::empty();
        let n = self.limits.len();
        let mut i: usize = 0;
        while i < n
            invariant
                n == self.limits.len() == before.len(),
                i <= n,
                self.rpc_client == old(self).rpc_client,
                before == old(self).limits@,
                limits_ready(before, endpoints@),
                nows.len() == i,
                forall|j: int| 0 <= j < i ==> nows[j] >= 0,
                forall|j: int|
                    0 <= j < i ==> {
                        &&& (#[trigger] before[j]).at_window(nows[j]).admits(endpoints@)
                        &&& self.limits@[j] == before[j].at_window(nows[j])
                    },
                forall|j: int| i <= j < n ==> self.limits@[j] == #[trigger] before[j],
            decreases n - i,
        {
            proof {
                if before[i as int].interval == 0 {
                    let j = choose|j: int|
                        0 <= j < i && (#[trigger] before[j]).always_refuses(endpoints@);
                    before[j].lemma_refusal_at_any_time(endpoints@, nows[j]);
                }
            }
            let admitted = self.limits[i].check_endpoints(endpoints);
            let ghost now = choose|now: i64|
                #![trigger before[i as int].at_window(now)]
                now >= 0 && self.limits@[i as int] == before[i as int].at_window(now) && admitted
                    == self.limits@[i as int].admits(endpoints@);
            if !admitted {
                proof {
                    let all_nows = nows.push(now) + Seq::new((n - i - 1) as nat, |j: int| 0i64);
                    assert(all_nows[i as int] == now);
                    assert forall|j: int| 0 <= j < i implies all_nows[j] == nows[j] by {}
                    assert(executed_with(before, self.limits@, endpoints@, false, all_nows));
                }
                return false;
            }
            proof {
                nows = nows.push(now);
            }
            i += 1;
        }
        let ghost windowed = self.limits@;
        let mut i: usize = 0;
        while i < n
            invariant
                n == self.limits.len() == before.len() == windowed.len(),
                i <= n,
                self.rpc_client == old(self).rpc_client,
                nows.len() == n,
                forall|j: int|
                    0 <= j < n ==> {
                        &&& (#[trigger] before[j]).at_window(nows[j]).admits(endpoints@)
                        &&& windowed[j] == before[j].at_window(nows[j])
                    },
                forall|j: int|
                    0 <= j < i ==> self.limits@[j] == (#[trigger] windowed[j]).with_applied(
                        endpoints@,
                    ),
                forall|j: int| i <= j < n ==> self.limits@[j] == #[trigger] windowed[j],
            decreases n - i,
        {
            proof {
                let w = windowed[i as int];
                assert(before[i as int].at_window(nows[i as int]).admits(endpoints@));
                if !w.counts_any(endpoints@) {
                    w.lemma_ignored_batch_is_free(endpoints@);
                }
            }
            self.limits[i].apply_endpoints(endpoints);
            i += 1;
        }
        proof {
            assert(executed_with(before, self.limits@, endpoints@, true, nows));
        }
        true
    }

    /// Process the execution of a Solana RPC endpoint.
    pub fn execute_endpoint(&mut self, endpoint: RpcEndpoint) -> (ok: bool)
        requires
            limits_ready(old(self).limits@, seq![endpoint]),
        ensures
            final(self).rpc_client == old(self).rpc_client,
            executed(old(self).limits@, final(self).limits@, seq![endpoint], ok),
    {
        let batch = [endpoint];
        assert(batch@ =~= seq![endpoint]);
        self.execute_endpoints(&batch)
    }
}

/// A batch that a list of limits accepts leaves every limit that counts it within its maximum,
/// and changes no limit's amounts, ignore list or maximum.
pub proof fn lemma_accepted_batch_fits(
    before: Seq<SolanaClientRateLimit>,
    after: Seq<SolanaClientRateLimit>,
    eps: Seq<RpcEndpoint>,
)
    requires
        executed(before, after, eps, true),
    ensures
        after.len() == before.len(),
        forall|i: int|
            0 <= i < before.len() ==> {
                &&& (#[trigger] before[i]).counts_any(eps) ==> after[i].consumed_amount
                    <= after[i].maximum_amount
                &&& after[i].maximum_amount == before[i].maximum_amount
                &&& after[i].endpoint_amounts == before[i].endpoint_amounts
                &&& after[i].ignore_endpoints == before[i].ignore_endpoints
            },
{
    let nows = choose|nows: Seq<i64>| #[trigger] executed_with(before, after, eps, true, nows);
    assert forall|i: int| 0 <= i < before.len() implies {
        &&& (#[trigger] before[i]).counts_any(eps) ==> after[i].consumed_amount
            <= after[i].maximum_amount
        &&& after[i].maximum_amount == before[i].maximum_amount
        &&& after[i].endpoint_amounts == before[i].endpoint_amounts
        &&& after[i].ignore_endpoints == before[i].ignore_endpoints
    } by {
        let w = before[i].at_window(nows[i]);
        before[i].lemma_same_tariff(&w, eps);
        lemma_admitted_batch_fits(w, eps);
    }
}

/// A batch that a list of limits refuses charges nothing: no limit's consumption grows, and no
/// limit's amounts, ignore list or maximum change.
pub proof fn lemma_refused_batch_charges_nothing(
    before: Seq<SolanaClientRateLimit>,
    after: Seq<SolanaClientRateLimit>,
    eps: Seq<RpcEndpoint>,
)
    requires
        executed(before, after, eps, false),
    ensures
        after.len() == before.len(),
        forall|i: int|
            0 <= i < before.len() ==> {
                &&& after[i].consumed_amount <= (#[trigger] before[i]).consumed_amount
                &&& after[i].maximum_amount == before[i].maximum_amount
                &&& after[i].endpoint_amounts == before[i].endpoint_amounts
                &&& after[i].ignore_endpoints == before[i].ignore_endpoints
            },
{
    let nows = choose|nows: Seq<i64>| #[trigger] executed_with(before, after, eps, false, nows);
    let k = choose|k: int|
        0 <= k < before.len() && !(#[trigger] before[k].at_window(nows[k])).admits(eps)
            && after[k] == before[k].at_window(nows[k]) && (forall|i: int|
            0 <= i < k ==> {
                &&& (#[trigger] before[i]).at_window(nows[i]).admits(eps)
                &&& after[i] == before[i].at_window(nows[i])
            }) && (forall|i: int| k < i < before.len() ==> after[i] == #[trigger] before[i]);
    assert forall|i: int| 0 <= i < before.len() implies {
        &&& after[i].consumed_amount <= (#[trigger] before[i]).consumed_amount
        &&& after[i].maximum_amount == before[i].maximum_amount
        &&& after[i].endpoint_amounts == before[i].endpoint_amounts
        &&& after[i].ignore_endpoints == before[i].ignore_endpoints
    } by {
        if i <= k {
            assert(after[i] == before[i].at_window(nows[i]));
        }
    }
}

/// Every limit of the list is within its maximum: no more has been consumed in its current
/// interval than it allows.
pub open spec fn within_budgets(limits: Seq<SolanaClientRateLimit>) -> bool {
    forall|i: int|
        0 <= i < limits.len() ==> (#[trigger] limits[i]).consumed_amount <= limits[i].maximum_amount
}

/// Whether a batch is accepted or refused, a list of limits that are all within their maximums
/// stays so.
pub proof fn lemma_budgets_kept(
    before: Seq<SolanaClientRateLimit>,
    after: Seq<SolanaClientRateLimit>,
    eps: Seq<RpcEndpoint>,
    ok: bool,
)
    requires
        executed(before, after, eps, ok),
        within_budgets(before),
    ensures
        within_budgets(after),
{
    let nows = choose|nows: Seq<i64>| #[trigger] executed_with(before, after, eps, ok, nows);
    assert forall|i: int| 0 <= i < after.len() implies (#[trigger] after[i]).consumed_amount
        <= after[i].maximum_amount by {
        assert(before[i].consumed_amount <= before[i].maximum_amount);
        lemma_budget_kept(before[i], eps, nows[i]);
        if !ok {
            lemma_refused_batch_charges_nothing(before, after, eps);
        }
    }
}

} // verus!

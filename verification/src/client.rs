//! The state of a balanced client: which RPC client serves the next request.

use std::sync::Arc;
use vstd::prelude::*;

use solana_rpc_client::nonblocking::rpc_client::RpcClient;

use crate::endpoint::RpcEndpoint;
use crate::rpc::{
    always_accepts, executed, lemma_accepted_batch_fits, lemma_always_accepted, lemma_budgets_kept,
    lemma_refused_batch_charges_nothing, limits_ready, within_budgets, SolanaClientRpc,
};

verus! {

/// How many steps forward, going round a list of `len` entries, index `idx` lies from `start`.
pub open spec fn rotation_distance(start: int, idx: int, len: int) -> int {
    if idx >= start {
        idx - start
    } else {
        idx + len - start
    }
}

/// An RPC client went through a batch of requests, keeping its client (see [`executed`]).
pub open spec fn rpc_executed(
    before: SolanaClientRpc,
    after: SolanaClientRpc,
    eps: Seq<RpcEndpoint>,
    ok: bool,
) -> bool {
    &&& after.rpc_client == before.rpc_client
    &&& executed(before.limits@, after.limits@, eps, ok)
}

/// Data of a balanced client: its RPC clients, the one to try first, and the client that serves
/// requests that no RPC client admits.
pub struct SolanaClientInner {
    pub next_rpc_index: usize,
    pub move_rpc_index: bool,
    pub rpc_list: Vec<SolanaClientRpc>,
    pub default_rpc: Arc<RpcClient>,
}

impl SolanaClientInner {
    /// The RPC clients are tried in turn from `next_rpc_index`, going round the list: `choice`
    /// is the first one that admitted the batch, and the ones before it refused it; the ones
    /// after it were not consulted. `None` means every one refused. When `move_rpc_index` is
    /// set, the client chosen becomes the first to try next time.
    pub open spec fn selected(self, after: Self, eps: Seq<RpcEndpoint>, choice: Option<usize>) -> bool {
        let len = self.rpc_list.len() as int;
        let start = self.next_rpc_index as int;
        &&& after.rpc_list.len() == self.rpc_list.len()
        &&& after.move_rpc_index == self.move_rpc_index
        &&& after.default_rpc == self.default_rpc
        &&& match choice {
            Some(c) => {
                &&& c < len
                &&& rpc_executed(self.rpc_list[c as int], after.rpc_list[c as int], eps, true)
                &&& forall|i: int|
                    0 <= i < len ==> {
                        &&& rotation_distance(start, i, len) < rotation_distance(start, c as int, len)
                            ==> rpc_executed(
                            #[trigger] self.rpc_list[i],
                            after.rpc_list[i],
                            eps,
                            false,
                        )
                        &&& rotation_distance(start, i, len) > rotation_distance(start, c as int, len)
                            ==> after.rpc_list[i] == self.rpc_list[i]
                    }
                &&& after.next_rpc_index == if self.move_rpc_index {
                    c
                } else {
                    self.next_rpc_index
                }
            },
            None => {
                &&& forall|i: int|
                    0 <= i < len ==> rpc_executed(
                        #[trigger] self.rpc_list[i],
                        after.rpc_list[i],
                        eps,
                        false,
                    )
                &&& after.next_rpc_index == self.next_rpc_index
            },
        }
    }

    /// Picking an RPC client for a batch cannot fail, whatever the clock reads: the index to
    /// start from lies in the list (so the list is not empty), and every RPC client whose limits
    /// could divide by a zero interval comes, going round from that index, after one that
    /// accepts the batch whatever the time (and so is never passed).
    pub open spec fn ready_for(self, eps: Seq<RpcEndpoint>) -> bool {
        let len = self.rpc_list.len() as int;
        let start = self.next_rpc_index as int;
        &&& self.next_rpc_index < self.rpc_list.len()
        &&& forall|i: int|
            0 <= i < len ==> limits_ready(#[trigger] self.rpc_list[i].limits@, eps) || exists|j: int|
                0 <= j < len && rotation_distance(start, j, len) < rotation_distance(start, i, len)
                    && always_accepts(#[trigger] self.rpc_list[j].limits@, eps)
    }

    /// The index to start from lies in the RPC list, or is 0 while the list is empty.
    pub open spec fn index_in_range(self) -> bool {
        self.next_rpc_index == 0 || self.next_rpc_index < self.rpc_list.len()
    }

    /// Creates the data of a client that has no RPC client yet and falls back on `default_rpc`.
    pub fn new(default_rpc: Arc<RpcClient>) -> (inner: Self)
        ensures
            inner.next_rpc_index == 0,
            !inner.move_rpc_index,
            inner.rpc_list@ == Seq::<SolanaClientRpc>::empty(),
            inner.default_rpc == default_rpc,
            inner.index_in_range(),
    {
        SolanaClientInner { next_rpc_index: 0, move_rpc_index: false, rpc_list: Vec::new(), default_rpc }
    }

    /// Adds a new [`SolanaClientRpc`] to the RPC list.
    pub fn add_rpc(&mut self, rpc: SolanaClientRpc)
        ensures
            final(self).rpc_list@ == old(self).rpc_list@.push(rpc),
            final(self).next_rpc_index == old(self).next_rpc_index,
            final(self).move_rpc_index == old(self).move_rpc_index,
            final(self).default_rpc == old(self).default_rpc,
            old(self).index_in_range() ==> final(self).index_in_range(),
    {
        self.rpc_list.push(rpc);
    }

    /// Sets whether the index must move forward when an RPC cannot be used.
    pub fn set_move_rpc_index(&mut self, move_index: bool)
        ensures
            final(self).move_rpc_index == move_index,
            final(self).rpc_list@ == old(self).rpc_list@,
            final(self).next_rpc_index == old(self).next_rpc_index,
            final(self).default_rpc == old(self).default_rpc,
            old(self).index_in_range() ==> final(self).index_in_range(),
    {
        self.move_rpc_index = move_index;
    }

    /// Whether picking an RPC client for the batch cannot fail (see
    /// [`SolanaClientInner::ready_for`]).
    pub fn is_ready_for(&self, endpoints: &[RpcEndpoint]) -> (ready: bool)
        ensures
            ready == self.ready_for(endpoints@),
    {
        let len = self.rpc_list.len();
        let start = self.next_rpc_index;
        if start >= len {
            return false;
        }
        let ghost l = len as int;
        let ghost st = start as int;
        let mut accepted_before = false;
        let mut index = start;
        let mut k: usize = 0;
        while k < len
            invariant
                len == self.rpc_list.len(),
                l == len,
                st == start == self.next_rpc_index,
                start < len,
                k <= len,
                index < len,
                index == if start + k < len {
                    start + k
                } else {
                    start + k - len
                },
                accepted_before == exists|j: int|
                    0 <= j < l && rotation_distance(st, j, l) < k && always_accepts(
                        #[trigger] self.rpc_list@[j].limits@,
                        endpoints@,
                    ),
                forall|i: int|
                    0 <= i < l && rotation_distance(st, i, l) < k ==> limits_ready(
                        #[trigger] self.rpc_list@[i].limits@,
                        endpoints@,
                    ) || exists|j: int|
                        0 <= j < l && rotation_distance(st, j, l) < rotation_distance(st, i, l)
                            && always_accepts(#[trigger] self.rpc_list@[j].limits@, endpoints@),
            decreases len - k,
        {
            let rpc = &self.rpc_list[index];
            proof {
                assert(rotation_distance(st, index as int, l) == k);
            }
            if !accepted_before && !rpc.is_ready_for(endpoints) {
                return false;
            }
            let accepts = rpc.accepts_always(endpoints);
            accepted_before = accepted_before || accepts;
            proof {
                if index + 1 < len {
                    vstd::arithmetic::div_mod::lemma_small_mod((index + 1) as nat, len as nat);
                } else {
                    vstd::arithmetic::div_mod::lemma_mod_self_0(len as int);
                }
            }
            index = (index + 1) % len;
            k += 1;
        }
        true
    }

    /// Tries the RPC clients in turn, from `next_rpc_index` and going round the list, until one
    /// admits the batch; returns its index, or `None` when all of them refuse it.
    pub fn select_rpc(&mut self, endpoints: &[RpcEndpoint]) -> (choice: Option<usize>)
        requires
            old(self).ready_for(endpoints@),
        ensures
            old(self).selected(*final(self), endpoints@, choice),
    {
        let ghost before = *old(self);
        let len = self.rpc_list.len();
        let start = self.next_rpc_index;
        let mut index = start;
        let ghost mut k: int = 0;
        loop
            invariant
                before == *old(self),
                before.ready_for(endpoints@),
                len == self.rpc_list.len() == before.rpc_list.len(),
                start == before.next_rpc_index == self.next_rpc_index,
                self.move_rpc_index == before.move_rpc_index,
                self.default_rpc == before.default_rpc,
                0 <= k < len,
                index < len,
                index == if start + k < len {
                    start + k
                } else {
                    start + k - len
                },
                forall|i: int|
                    0 <= i < len ==> {
                        &&& rotation_distance(start as int, i, len as int) < k ==> rpc_executed(
                            #[trigger] before.rpc_list[i],
                            self.rpc_list@[i],
                            endpoints@,
                            false,
                        )
                        &&& rotation_distance(start as int, i, len as int) >= k
                            ==> self.rpc_list@[i] == before.rpc_list[i]
                    },
            decreases len - k,
        {
            proof {
                assert(rotation_distance(start as int, index as int, len as int) == k);
                if !limits_ready(before.rpc_list[index as int].limits@, endpoints@) {
                    let j = choose|j: int|
                        0 <= j < len && rotation_distance(start as int, j, len as int)
                            < rotation_distance(start as int, index as int, len as int)
                            && always_accepts(#[trigger] before.rpc_list[j].limits@, endpoints@);
                    assert(rpc_executed(before.rpc_list[j], self.rpc_list@[j], endpoints@, false));
                    lemma_always_accepted(before.rpc_list[j].limits@, self.rpc_list@[j].limits@, endpoints@);
                }
            }
            if self.rpc_list[index].execute_endpoints(endpoints) {
                if self.move_rpc_index {
                    self.next_rpc_index = index;
                }
                return Some(index);
            }
            let ghost previous = index;
            proof {
                if index + 1 < len {
                    vstd::arithmetic::div_mod::lemma_small_mod((index + 1) as nat, len as nat);
                } else {
                    vstd::arithmetic::div_mod::lemma_mod_self_0(len as int);
                }
            }
            index = (index + 1) % len;
            proof {
                k = k + 1;
            }
            if index == self.next_rpc_index {
                return None;
            }
        }
    }

    /// Picks the client that serves a batch: the first RPC client, in turn from
    /// `next_rpc_index`, that admits it (see [`SolanaClientInner::select_rpc`]), or the default
    /// client when none does.
    pub fn pick_rpc(&mut self, endpoints: &[RpcEndpoint]) -> (client: Arc<RpcClient>)
        requires
            old(self).ready_for(endpoints@),
        ensures
            exists|choice: Option<usize>|
                #[trigger] old(self).selected(*final(self), endpoints@, choice) && client
                    == match choice {
                    Some(c) => old(self).rpc_list[c as int].rpc_client,
                    None => old(self).default_rpc,
                },
    {
        let choice = self.select_rpc(endpoints);
        match choice {
            Some(c) => self.rpc_list[c].rpc_client.clone(),
            None => self.default_rpc.clone(),
        }
    }
}

/// A batch goes out through an RPC client only when every limit of that client admits it, and
/// it leaves each limit that counts it within its maximum.
pub proof fn lemma_chosen_rpc_within_limits(
    before: SolanaClientInner,
    after: SolanaClientInner,
    eps: Seq<RpcEndpoint>,
    c: usize,
)
    requires
        before.selected(after, eps, Some(c)),
    ensures
        forall|i: int|
            0 <= i < before.rpc_list[c as int].limits.len()
                && (#[trigger] before.rpc_list[c as int].limits@[i]).counts_any(eps) ==> {
                &&& after.rpc_list[c as int].limits@[i].consumed_amount
                    <= after.rpc_list[c as int].limits@[i].maximum_amount
            },
{
    lemma_accepted_batch_fits(before.rpc_list[c as int].limits@, after.rpc_list[c as int].limits@, eps);
}

/// When the default client serves a batch, every RPC client refused it and none of their
/// limits was charged.
pub proof fn lemma_fallback_charges_nothing(
    before: SolanaClientInner,
    after: SolanaClientInner,
    eps: Seq<RpcEndpoint>,
)
    requires
        before.selected(after, eps, None),
    ensures
        forall|r: int, i: int|
            0 <= r < before.rpc_list.len() && 0 <= i < before.rpc_list[r].limits.len() ==> {
                &&& after.rpc_list[r].limits@[i].consumed_amount
                    <= (#[trigger] before.rpc_list[r].limits@[i]).consumed_amount
            },
{
    assert forall|r: int, i: int|
        0 <= r < before.rpc_list.len() && 0 <= i < before.rpc_list[r].limits.len() implies {
            &&& after.rpc_list[r].limits@[i].consumed_amount
                <= (#[trigger] before.rpc_list[r].limits@[i]).consumed_amount
        } by {
        assert(rpc_executed(before.rpc_list[r], after.rpc_list[r], eps, false));
        lemma_refused_batch_charges_nothing(before.rpc_list[r].limits@, after.rpc_list[r].limits@, eps);
    }
}

/// Every limit of every RPC client is within its maximum.
pub open spec fn all_within_budgets(inner: SolanaClientInner) -> bool {
    forall|r: int| 0 <= r < inner.rpc_list.len() ==> within_budgets(#[trigger] inner.rpc_list[r].limits@)
}

/// Picking a client for a batch keeps every limit of every RPC client within its maximum.
pub proof fn lemma_selection_keeps_budgets(
    before: SolanaClientInner,
    after: SolanaClientInner,
    eps: Seq<RpcEndpoint>,
    choice: Option<usize>,
)
    requires
        before.selected(after, eps, choice),
        all_within_budgets(before),
    ensures
        all_within_budgets(after),
{
    let len = before.rpc_list.len() as int;
    let start = before.next_rpc_index as int;
    assert forall|r: int| 0 <= r < after.rpc_list.len() implies within_budgets(
        #[trigger] after.rpc_list[r].limits@,
    ) by {
        assert(within_budgets(before.rpc_list[r].limits@));
        match choice {
            Some(c) => {
                if r == c as int {
                    lemma_budgets_kept(before.rpc_list[r].limits@, after.rpc_list[r].limits@, eps, true);
                } else if rotation_distance(start, r, len) < rotation_distance(start, c as int, len) {
                    assert(rpc_executed(before.rpc_list[r], after.rpc_list[r], eps, false));
                    lemma_budgets_kept(before.rpc_list[r].limits@, after.rpc_list[r].limits@, eps, false);
                } else {
                    assert(after.rpc_list[r] == before.rpc_list[r]);
                }
            },
            None => {
                assert(rpc_executed(before.rpc_list[r], after.rpc_list[r], eps, false));
                lemma_budgets_kept(before.rpc_list[r].limits@, after.rpc_list[r].limits@, eps, false);
            },
        }
    }
}


/// Picking a client keeps the index to start from in the RPC list, and leaves it where it was
/// while moving the index is off.
pub proof fn lemma_selection_keeps_index_in_range(
    before: SolanaClientInner,
    after: SolanaClientInner,
    eps: Seq<RpcEndpoint>,
    choice: Option<usize>,
)
    requires
        before.selected(after, eps, choice),
        before.index_in_range(),
    ensures
        after.index_in_range(),
        !before.move_rpc_index ==> after.next_rpc_index == before.next_rpc_index,
{
}


/// The RPC client consulted `k`-th when going forward round a list of `len` clients from index
/// `start`.
pub open spec fn consulted(start: int, k: int, len: int) -> int {
    (start + k) % len
}

/// Going forward round the list from `start`, the `k`-th client consulted lies `k` steps on.
proof fn lemma_consulted_steps(start: int, k: int, len: int)
    requires
        0 <= start < len,
        0 <= k < len,
    ensures
        0 <= consulted(start, k, len) < len,
        rotation_distance(start, consulted(start, k, len), len) == k,
{
    if start + k < len {
        vstd::arithmetic::div_mod::lemma_small_mod((start + k) as nat, len as nat);
    } else {
        vstd::arithmetic::div_mod::lemma_mod_add_multiples_vanish(start + k - len, len);
        vstd::arithmetic::div_mod::lemma_small_mod((start + k - len) as nat, len as nat);
    }
}

/// Picking a client consults the RPC clients going forward round the list from
/// `next_rpc_index`, one step at a time: the client chosen is the `d`-th consulted for some `d`,
/// every client consulted before it refused the batch, and the ones after it were left as they
/// were. When none is chosen, every client refused the batch.
pub proof fn lemma_clients_consulted_in_turn(
    before: SolanaClientInner,
    after: SolanaClientInner,
    eps: Seq<RpcEndpoint>,
    choice: Option<usize>,
)
    requires
        before.selected(after, eps, choice),
        before.index_in_range(),
    ensures
        after.rpc_list.len() == before.rpc_list.len(),
        match choice {
            Some(c) => exists|d: int|
                #![trigger consulted(before.next_rpc_index as int, d, before.rpc_list.len() as int)]
                {
                    let start = before.next_rpc_index as int;
                    let len = before.rpc_list.len() as int;
                    &&& 0 <= d < len
                    &&& c as int == consulted(start, d, len)
                    &&& rpc_executed(before.rpc_list[c as int], after.rpc_list[c as int], eps, true)
                    &&& forall|k: int|
                        0 <= k < d ==> rpc_executed(
                            before.rpc_list[#[trigger] consulted(start, k, len)],
                            after.rpc_list[consulted(start, k, len)],
                            eps,
                            false,
                        )
                    &&& forall|k: int|
                        d < k < len ==> after.rpc_list[#[trigger] consulted(start, k, len)]
                            == before.rpc_list[consulted(start, k, len)]
                },
            None => forall|i: int|
                0 <= i < before.rpc_list.len() ==> rpc_executed(
                    #[trigger] before.rpc_list[i],
                    after.rpc_list[i],
                    eps,
                    false,
                ),
        },
{
    let start = before.next_rpc_index as int;
    let len = before.rpc_list.len() as int;
    if let Some(c) = choice {
        let d = rotation_distance(start, c as int, len);
        assert(0 <= d < len);
        lemma_consulted_steps(start, d, len);
        let i = consulted(start, d, len);
        assert(i == c as int) by {
            if i != c as int {
                assert(rotation_distance(start, i, len) != rotation_distance(start, c as int, len));
            }
        }
        assert forall|k: int| 0 <= k < d implies rpc_executed(
            before.rpc_list[#[trigger] consulted(start, k, len)],
            after.rpc_list[consulted(start, k, len)],
            eps,
            false,
        ) by {
            lemma_consulted_steps(start, k, len);
        }
        assert forall|k: int| d < k < len implies after.rpc_list[#[trigger] consulted(start, k, len)]
            == before.rpc_list[consulted(start, k, len)] by {
            lemma_consulted_steps(start, k, len);
        }
    }
}

} // verus!

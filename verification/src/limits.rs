//! Rate limits: how much of a budget a batch of requests uses, per time window.

use std::collections::{HashMap, HashSet};
use vstd::prelude::*;

use crate::endpoint::{lemma_code_decodes, lemma_code_injective, RpcEndpoint, CUSTOM_CODE};
use crate::methods::{
    amounts_without, custom_amount, find_custom_amount, find_method, lemma_amounts_without,
    lemma_names_without, lists_method, names_without, remove_custom_amount, remove_method,
};

verus! {

broadcast use lemma_code_decodes;

/// Rust's integer division, which rounds toward zero (`/` in specifications rounds down).
pub open spec fn trunc_div(a: int, b: int) -> int {
    let m = if b >= 0 { b } else { -b };
    let q = if a >= 0 { a / m } else { -((-a) / m) };
    if b >= 0 { q } else { -q }
}

/// Dividing an `i64` by a non-zero `i64`, other than `i64::MIN` by `-1`, gives an `i64`.
pub proof fn lemma_trunc_div_fits(a: i64, b: i64)
    requires
        b != 0,
        !(a == i64::MIN && b == -1),
    ensures
        i64::MIN <= trunc_div(a as int, b as int) <= i64::MAX,
{
    let m: int = if b >= 0 { b as int } else { -(b as int) };
    let na: int = if a >= 0 { a as int } else { -(a as int) };
    assert(0 <= na / m <= na) by (nonlinear_arith)
        requires
            na >= 0,
            m >= 1,
    ;
    if m == 1 {
        assert(na / 1 == na);
    } else {
        assert(na / m <= na / 2) by (nonlinear_arith)
            requires
                na >= 0,
                m >= 2,
        ;
    }
}

/// The index of the interval of length `interval` that the instant `now` falls in, computed as
/// `now / interval` on `i64`.
fn window_index(now: i64, interval: i64) -> (w: i64)
    requires
        interval != 0,
        !(now == i64::MIN && interval == -1),
    ensures
        w == trunc_div(now as int, interval as int),
{
    proof {
        lemma_trunc_div_fits(now, interval);
    }
    let n = now as i128;
    let d = interval as i128;
    let m: i128 = if d > 0 { d } else { -d };
    let q: i128 = if n >= 0 { n / m } else { -((-n) / m) };
    let w: i128 = if d > 0 { q } else { -q };
    w as i64
}

/// Reads the clock: `chrono::Utc::now()` as milliseconds since the Unix epoch
/// (`DateTime::timestamp_millis`).
///
/// The value depends on the time, so the contract says only what holds of every reading:
/// chrono's `Utc::now` stops with a panic when the system time lies before the epoch (it calls
/// `expect` on `SystemTime::duration_since(UNIX_EPOCH)`), so a reading it returns is never
/// negative. That panic, which depends on the machine's clock and not on any argument, is not
/// excluded here.
#[verifier::external_body]
fn current_millis() -> (millis: i64)
    ensures
        millis >= 0,
{
    chrono::Utc::now().timestamp_millis()
}

/// The codes of the named endpoints.
pub open spec fn named_codes() -> Set<u32> {
    Set::new(|c: u32| c < CUSTOM_CODE)
}

/// Limit for rates like requests per second or compute units per interval.
///
/// Named endpoints are stored by their [`RpcEndpoint::code`], custom methods by name.
#[derive(Debug)]
pub struct SolanaClientRateLimit {
    /// Map that contains the amount given to each named endpoint, keyed by the endpoint's code.
    pub endpoint_amounts: HashMap<u32, u64>,
    /// Set of the codes of the named endpoints ignored by this limit.
    pub ignore_endpoints: HashSet<u32>,
    /// The amounts given to custom methods, by method name.
    pub custom_amounts: Vec<(String, u64)>,
    /// The names of the custom methods ignored by this limit.
    pub ignore_custom_methods: Vec<String>,
    /// Whether the custom methods that have no amount of their own are ignored too.
    pub ignores_other_custom_methods: bool,
    /// The index of the interval in which this limit was last checked.
    pub last_datetime: i64,
    /// Interval between rate resets expressed in milliseconds.
    pub interval: i64,
    /// The number of requests or compute units already consumed in the current interval.
    pub consumed_amount: u64,
    /// The maximum number of requests or compute units allowed per interval.
    pub maximum_amount: u64,
    /// The default amount for each endpoint if not specified in `endpoint_amounts`.
    pub default_amount_per_endpoint: u64,
}

impl SolanaClientRateLimit {
    /// The amount this limit gives to an endpoint of its own, if any.
    pub open spec fn amount_of(&self, e: RpcEndpoint) -> Option<u64> {
        if e@.0 == CUSTOM_CODE {
            custom_amount(self.custom_amounts@, e@.1)
        } else if self.endpoint_amounts@.contains_key(e@.0) {
            Some(self.endpoint_amounts@[e@.0])
        } else {
            None
        }
    }

    /// Whether this limit ignores an endpoint.
    pub open spec fn is_ignored(&self, e: RpcEndpoint) -> bool {
        if e@.0 == CUSTOM_CODE {
            lists_method(self.ignore_custom_methods@, e@.1) || (self.ignores_other_custom_methods
                && custom_amount(self.custom_amounts@, e@.1) is None)
        } else {
            self.ignore_endpoints@.contains(e@.0)
        }
    }

    /// What one request to `e` uses of this limit.
    pub open spec fn cost(&self, e: RpcEndpoint) -> u64 {
        if self.is_ignored(e) {
            0
        } else {
            match self.amount_of(e) {
                Some(a) => a,
                None => self.default_amount_per_endpoint,
            }
        }
    }

    /// No endpoint is both given an amount and ignored.
    pub open spec fn tariff_consistent(&self) -> bool {
        forall|e: RpcEndpoint| #[trigger] self.amount_of(e) is Some ==> !self.is_ignored(e)
    }

    /// The amount this limit gives to an endpoint of its own, if any.
    fn amount_for(&self, e: &RpcEndpoint) -> (r: Option<u64>)
        ensures
            r == self.amount_of(*e),
    {
        match e {
            RpcEndpoint::Custom { method } => find_custom_amount(&self.custom_amounts, method),
            _ => {
                let code = e.code();
                match self.endpoint_amounts.get(&code) {
                    Some(a) => Some(*a),
                    None => None,
                }
            },
        }
    }

    /// Whether this limit ignores an endpoint.
    fn ignores(&self, e: &RpcEndpoint) -> (r: bool)
        ensures
            r == self.is_ignored(*e),
    {
        match e {
            RpcEndpoint::Custom { method } => {
                find_method(&self.ignore_custom_methods, method) || (
                self.ignores_other_custom_methods && find_custom_amount(
                    &self.custom_amounts,
                    method,
                ).is_none())
            },
            _ => {
                let code = e.code();
                self.ignore_endpoints.contains(&code)
            },
        }
    }

    /// What a batch of requests uses of this limit.
    pub open spec fn total_cost(&self, eps: Seq<RpcEndpoint>) -> int
        decreases eps.len(),
    {
        if eps.len() == 0 {
            0
        } else {
            self.total_cost(eps.drop_last()) + self.cost(eps.last())
        }
    }

    /// Whether a batch holds an endpoint that this limit does not ignore.
    pub open spec fn counts_any(&self, eps: Seq<RpcEndpoint>) -> bool
        decreases eps.len(),
    {
        if eps.len() == 0 {
            false
        } else {
            self.counts_any(eps.drop_last()) || !self.is_ignored(eps.last())
        }
    }

    /// The index of the interval that the instant `now` (milliseconds) falls in.
    pub open spec fn window_of(&self, now: i64) -> int {
        trunc_div(now as int, self.interval as int)
    }

    /// This limit as seen at the instant `now`: entering a new interval clears the consumption.
    pub open spec fn at_window(self, now: i64) -> Self {
        let w = self.window_of(now);
        if w != self.last_datetime as int {
            SolanaClientRateLimit { last_datetime: w as i64, consumed_amount: 0, ..self }
        } else {
            self
        }
    }

    /// Whether a batch fits in what is left of the budget: a batch that this limit ignores
    /// entirely always does.
    pub open spec fn admits(&self, eps: Seq<RpcEndpoint>) -> bool {
        !(self.counts_any(eps) && self.consumed_amount + self.total_cost(eps)
            > self.maximum_amount)
    }

    /// This limit after a batch of requests has been charged to it.
    pub open spec fn with_applied(self, eps: Seq<RpcEndpoint>) -> Self {
        SolanaClientRateLimit {
            consumed_amount: (self.consumed_amount + self.total_cost(eps)) as u64,
            ..self
        }
    }

    /// Whether a batch uses more than the whole budget of an interval, so that this limit
    /// refuses it at any instant.
    pub open spec fn always_refuses(&self, eps: Seq<RpcEndpoint>) -> bool {
        self.counts_any(eps) && self.total_cost(eps) > self.maximum_amount
    }

    /// Whether this limit admits a batch whatever the time: the batch fits both in a fresh
    /// interval and in what is left of the current one.
    pub open spec fn always_admits(&self, eps: Seq<RpcEndpoint>) -> bool {
        !self.counts_any(eps) || (self.total_cost(eps) <= self.maximum_amount
            && self.consumed_amount + self.total_cost(eps) <= self.maximum_amount)
    }

    /// A limit that admits a batch whatever the time admits it at every instant.
    pub proof fn lemma_admission_at_any_time(&self, eps: Seq<RpcEndpoint>, now: i64)
        requires
            self.always_admits(eps),
        ensures
            self.at_window(now).admits(eps),
    {
        self.lemma_same_tariff(&self.at_window(now), eps);
    }

    /// Two limits with the same amounts, ignore list and default amount charge every batch
    /// alike.
    pub proof fn lemma_same_tariff(&self, other: &Self, eps: Seq<RpcEndpoint>)
        requires
            self.endpoint_amounts@ == other.endpoint_amounts@,
            self.ignore_endpoints@ == other.ignore_endpoints@,
            self.custom_amounts@ == other.custom_amounts@,
            self.ignore_custom_methods@ == other.ignore_custom_methods@,
            self.ignores_other_custom_methods == other.ignores_other_custom_methods,
            self.default_amount_per_endpoint == other.default_amount_per_endpoint,
        ensures
            self.total_cost(eps) == other.total_cost(eps),
            self.counts_any(eps) == other.counts_any(eps),
        decreases eps.len(),
    {
        if eps.len() > 0 {
            self.lemma_same_tariff(other, eps.drop_last());
        }
    }

    /// A limit that refuses a batch whatever the time refuses it at every instant.
    pub proof fn lemma_refusal_at_any_time(&self, eps: Seq<RpcEndpoint>, now: i64)
        requires
            self.always_refuses(eps),
        ensures
            !self.at_window(now).admits(eps),
    {
        self.lemma_same_tariff(&self.at_window(now), eps);
    }

    /// The cost of a prefix of a batch is at most that of the batch, and a prefix that holds a
    /// counted endpoint makes the batch hold one.
    pub proof fn lemma_prefix(&self, eps: Seq<RpcEndpoint>, k: int)
        requires
            0 <= k <= eps.len(),
        ensures
            0 <= self.total_cost(eps.take(k)) <= self.total_cost(eps),
            self.counts_any(eps.take(k)) ==> self.counts_any(eps),
        decreases eps.len(),
    {
        if k == eps.len() {
            assert(eps.take(k) =~= eps);
            self.lemma_cost_nonnegative(eps);
        } else {
            assert(eps.take(k) =~= eps.drop_last().take(k));
            self.lemma_prefix(eps.drop_last(), k);
        }
    }

    /// Costs are never negative.
    pub proof fn lemma_cost_nonnegative(&self, eps: Seq<RpcEndpoint>)
        ensures
            self.total_cost(eps) >= 0,
        decreases eps.len(),
    {
        if eps.len() > 0 {
            self.lemma_cost_nonnegative(eps.drop_last());
        }
    }

    /// A batch that this limit ignores entirely costs nothing.
    pub proof fn lemma_ignored_batch_is_free(&self, eps: Seq<RpcEndpoint>)
        requires
            !self.counts_any(eps),
        ensures
            self.total_cost(eps) == 0,
        decreases eps.len(),
    {
        if eps.len() > 0 {
            self.lemma_ignored_batch_is_free(eps.drop_last());
        }
    }

    /// Whether two limits agree on everything but which endpoints they give amounts to or
    /// ignore.
    pub open spec fn same_budget(&self, other: &Self) -> bool {
        &&& self.last_datetime == other.last_datetime
        &&& self.interval == other.interval
        &&& self.consumed_amount == other.consumed_amount
        &&& self.maximum_amount == other.maximum_amount
        &&& self.default_amount_per_endpoint == other.default_amount_per_endpoint
    }

    /// Creates a limit of `maximum_amount` per `interval` milliseconds, where each endpoint
    /// costs `default_amount_per_endpoint` unless told otherwise.
    pub fn new(interval: u64, maximum_amount: u64, default_amount_per_endpoint: u64) -> (limit:
        Self)
        ensures
            limit.endpoint_amounts@ == Map::<u32, u64>::empty(),
            limit.ignore_endpoints@ == Set::<u32>::empty(),
            limit.custom_amounts@ == Seq::<(String, u64)>::empty(),
            limit.ignore_custom_methods@ == Seq::<String>::empty(),
            !limit.ignores_other_custom_methods,
            limit.last_datetime == 0,
            limit.interval == interval as i64,
            limit.consumed_amount == 0,
            limit.maximum_amount == maximum_amount,
            limit.default_amount_per_endpoint == default_amount_per_endpoint,
            limit.tariff_consistent(),
            forall|e: RpcEndpoint|
                #![trigger limit.cost(e)]
                limit.amount_of(e) is None && !limit.is_ignored(e) && limit.cost(e)
                    == default_amount_per_endpoint,
    {
        Self {
            endpoint_amounts: HashMap::new(),
            ignore_endpoints: HashSet::new(),
            custom_amounts: Vec::new(),
            ignore_custom_methods: Vec::new(),
            ignores_other_custom_methods: false,
            last_datetime: 0,
            interval: interval as i64,
            consumed_amount: 0,
            maximum_amount,
            default_amount_per_endpoint,
        }
    }

    /// Gives an endpoint its own amount, and stops ignoring it.
    pub fn add_endpoint_amount(self, endpoint: RpcEndpoint, amount: u64) -> (limit: Self)
        ensures
            match endpoint {
                RpcEndpoint::Custom { method } => {
                    &&& limit.endpoint_amounts@ == self.endpoint_amounts@
                    &&& limit.ignore_endpoints@ == self.ignore_endpoints@
                    &&& limit.custom_amounts@ == amounts_without(
                        self.custom_amounts@,
                        method@,
                    ).push((method, amount))
                    &&& limit.ignore_custom_methods@ == names_without(
                        self.ignore_custom_methods@,
                        method@,
                    )
                },
                _ => {
                    &&& limit.endpoint_amounts@ == self.endpoint_amounts@.insert(
                        endpoint.spec_code(),
                        amount,
                    )
                    &&& limit.ignore_endpoints@ == self.ignore_endpoints@.remove(
                        endpoint.spec_code(),
                    )
                    &&& limit.custom_amounts@ == self.custom_amounts@
                    &&& limit.ignore_custom_methods@ == self.ignore_custom_methods@
                },
            },
            limit.ignores_other_custom_methods == self.ignores_other_custom_methods,
            limit.same_budget(&self),
            forall|e: RpcEndpoint|
                #![trigger limit.cost(e)]
                if e@ == endpoint@ {
                    limit.amount_of(e) == Some(amount) && !limit.is_ignored(e) && limit.cost(e)
                        == amount
                } else {
                    limit.amount_of(e) == self.amount_of(e) && limit.is_ignored(e)
                        == self.is_ignored(e) && limit.cost(e) == self.cost(e)
                },
            self.tariff_consistent() ==> limit.tariff_consistent(),
            limit.made_by(self, TariffCall::Amount(endpoint, amount)),
    {
        let ghost before = self;
        let mut limit = self;
        match &endpoint {
            RpcEndpoint::Custom { method } => {
                let mut amounts = remove_custom_amount(&limit.custom_amounts, method);
                amounts.push((method.clone(), amount));
                limit.custom_amounts = amounts;
                limit.ignore_custom_methods = remove_method(&limit.ignore_custom_methods, method);
            },
            _ => {
                let code = endpoint.code();
                limit.endpoint_amounts.insert(code, amount);
                limit.ignore_endpoints.remove(&code);
            },
        }
        proof {
            assert forall|e: RpcEndpoint|
                if e@ == endpoint@ {
                    limit.amount_of(e) == Some(amount) && !limit.is_ignored(e)
                } else {
                    limit.amount_of(e) == before.amount_of(e) && limit.is_ignored(e)
                        == before.is_ignored(e)
                } by {
                match endpoint {
                    RpcEndpoint::Custom { method } => {
                        let rest = amounts_without(before.custom_amounts@, method@);
                        assert(limit.custom_amounts@.drop_last() =~= rest);
                        lemma_amounts_without(before.custom_amounts@, method@, e@.1);
                        lemma_names_without(before.ignore_custom_methods@, method@, e@.1);
                    },
                    _ => {
                        if !(e is Custom) {
                            lemma_code_injective(e, endpoint);
                        }
                    },
                }
            }
            assert(before.tariff_consistent() ==> limit.tariff_consistent()) by {
                if before.tariff_consistent() {
                    assert forall|e: RpcEndpoint| #[trigger] limit.amount_of(e) is Some implies !limit.is_ignored(e) by {
                        assert(before.amount_of(e) is Some ==> !before.is_ignored(e));
                    }
                }
            }
        }
        limit
    }

    /// Adds an endpoint to the list of ignored endpoints, and drops its own amount.
    pub fn ignore_endpoint(self, endpoint: RpcEndpoint) -> (limit: Self)
        ensures
            match endpoint {
                RpcEndpoint::Custom { method } => {
                    &&& limit.endpoint_amounts@ == self.endpoint_amounts@
                    &&& limit.ignore_endpoints@ == self.ignore_endpoints@
                    &&& limit.custom_amounts@ == amounts_without(self.custom_amounts@, method@)
                    &&& limit.ignore_custom_methods@ == names_without(
                        self.ignore_custom_methods@,
                        method@,
                    ).push(method)
                },
                _ => {
                    &&& limit.endpoint_amounts@ == self.endpoint_amounts@.remove(
                        endpoint.spec_code(),
                    )
                    &&& limit.ignore_endpoints@ == self.ignore_endpoints@.insert(
                        endpoint.spec_code(),
                    )
                    &&& limit.custom_amounts@ == self.custom_amounts@
                    &&& limit.ignore_custom_methods@ == self.ignore_custom_methods@
                },
            },
            limit.ignores_other_custom_methods == self.ignores_other_custom_methods,
            limit.same_budget(&self),
            forall|e: RpcEndpoint|
                #![trigger limit.cost(e)]
                if e@ == endpoint@ {
                    limit.amount_of(e) is None && limit.is_ignored(e) && limit.cost(e) == 0
                } else {
                    limit.amount_of(e) == self.amount_of(e) && limit.is_ignored(e)
                        == self.is_ignored(e) && limit.cost(e) == self.cost(e)
                },
            self.tariff_consistent() ==> limit.tariff_consistent(),
            limit.made_by(self, TariffCall::Ignore(endpoint)),
    {
        let ghost before = self;
        let mut limit = self;
        match &endpoint {
            RpcEndpoint::Custom { method } => {
                limit.custom_amounts = remove_custom_amount(&limit.custom_amounts, method);
                let mut names = remove_method(&limit.ignore_custom_methods, method);
                names.push(method.clone());
                limit.ignore_custom_methods = names;
            },
            _ => {
                let code = endpoint.code();
                limit.ignore_endpoints.insert(code);
                limit.endpoint_amounts.remove(&code);
            },
        }
        proof {
            assert forall|e: RpcEndpoint|
                if e@ == endpoint@ {
                    limit.amount_of(e) is None && limit.is_ignored(e)
                } else {
                    limit.amount_of(e) == before.amount_of(e) && limit.is_ignored(e)
                        == before.is_ignored(e)
                } by {
                match endpoint {
                    RpcEndpoint::Custom { method } => {
                        let rest = names_without(before.ignore_custom_methods@, method@);
                        assert(limit.ignore_custom_methods@.drop_last() =~= rest);
                        lemma_amounts_without(before.custom_amounts@, method@, e@.1);
                        lemma_names_without(before.ignore_custom_methods@, method@, e@.1);
                    },
                    _ => {
                        if !(e is Custom) {
                            lemma_code_injective(e, endpoint);
                        }
                    },
                }
            }
            assert(before.tariff_consistent() ==> limit.tariff_consistent()) by {
                if before.tariff_consistent() {
                    assert forall|e: RpcEndpoint| #[trigger] limit.amount_of(e) is Some implies !limit.is_ignored(e) by {
                        assert(before.amount_of(e) is Some ==> !before.is_ignored(e));
                    }
                }
            }
        }
        limit
    }

    /// Adds every endpoint to the list of ignored endpoints: every named endpoint, and every
    /// custom method, and drops their own amounts.
    pub fn ignores_all_endpoints(self) -> (limit: Self)
        ensures
            limit.endpoint_amounts@ == self.endpoint_amounts@.remove_keys(named_codes()),
            limit.ignore_endpoints@ == self.ignore_endpoints@.union(named_codes()),
            limit.custom_amounts@ == Seq::<(String, u64)>::empty(),
            limit.ignore_custom_methods@ == Seq::<String>::empty(),
            limit.ignores_other_custom_methods,
            limit.same_budget(&self),
            forall|e: RpcEndpoint|
                #![trigger limit.cost(e)]
                limit.amount_of(e) is None && limit.is_ignored(e) && limit.cost(e) == 0,
            limit.tariff_consistent(),
            limit.made_by(self, TariffCall::IgnoreAll),
    {
        let ghost before = self;
        let mut limit = self;
        if limit.ignore_endpoints.len() < CUSTOM_CODE as usize {
            limit.ignore_endpoints.reserve(CUSTOM_CODE as usize - limit.ignore_endpoints.len());
        }
        let mut code: u32 = 0;
        while code < CUSTOM_CODE
            invariant
                code <= CUSTOM_CODE,
                limit.same_budget(&before),
                limit.endpoint_amounts@ == before.endpoint_amounts@.remove_keys(
                    Set::new(|c: u32| c < code),
                ),
                limit.ignore_endpoints@ == before.ignore_endpoints@.union(
                    Set::new(|c: u32| c < code),
                ),
                limit.custom_amounts@ == before.custom_amounts@,
                limit.ignore_custom_methods@ == before.ignore_custom_methods@,
                limit.ignores_other_custom_methods == before.ignores_other_custom_methods,
            decreases CUSTOM_CODE - code,
        {
            limit.ignore_endpoints.insert(code);
            limit.endpoint_amounts.remove(&code);
            proof {
                let next = (code + 1) as u32;
                assert(limit.endpoint_amounts@ =~= before.endpoint_amounts@.remove_keys(
                    Set::new(|c: u32| c < next),
                ));
                assert(limit.ignore_endpoints@ =~= before.ignore_endpoints@.union(
                    Set::new(|c: u32| c < next),
                ));
            }
            code += 1;
        }
        limit.custom_amounts = Vec::new();
        limit.ignore_custom_methods = Vec::new();
        limit.ignores_other_custom_methods = true;
        proof {
            assert(Set::new(|c: u32| c < CUSTOM_CODE) =~= named_codes());
            assert forall|e: RpcEndpoint|
                #![trigger limit.cost(e)]
                limit.amount_of(e) is None && limit.is_ignored(e) && limit.cost(e) == 0 by {
                if !(e is Custom) {
                    assert(named_codes().contains(e@.0));
                }
            }
        }
        limit
    }

    /// Whether a batch holds an endpoint that this limit counts, and what the batch costs when
    /// that is at most `cap` (`None` when it is more).
    fn batch_cost_within(&self, endpoints: &[RpcEndpoint], cap: u64) -> (r: (bool, Option<u64>))
        ensures
            r.0 == self.counts_any(endpoints@),
            r.1 is None <==> self.total_cost(endpoints@) > cap,
            r.1 matches Some(t) ==> t == self.total_cost(endpoints@),
    {
        let mut total: u64 = 0;
        let mut counted = false;
        let mut i: usize = 0;
        while i < endpoints.len()
            invariant
                i <= endpoints.len(),
                total == self.total_cost(endpoints@.take(i as int)),
                total <= cap,
                counted == self.counts_any(endpoints@.take(i as int)),
            decreases endpoints.len() - i,
        {
            let endpoint = &endpoints[i];
            proof {
                assert(endpoints@.take(i + 1).drop_last() =~= endpoints@.take(i as int));
                assert(endpoints@.take(i + 1).last() == *endpoint);
                self.lemma_prefix(endpoints@, i + 1);
            }
            if !self.ignores(endpoint) {
                counted = true;
                let amount = match self.amount_for(endpoint) {
                    Some(a) => a,
                    None => self.default_amount_per_endpoint,
                };
                match total.checked_add(amount) {
                    Some(sum) => {
                        total = sum;
                    },
                    None => {
                        return (true, None);
                    },
                }
                if total > cap {
                    return (true, None);
                }
            }
            i += 1;
        }
        proof {
            assert(endpoints@.take(endpoints@.len() as int) =~= endpoints@);
        }
        (counted, Some(total))
    }

    /// Whether the batch uses more than the whole budget of an interval, so that this limit
    /// refuses it whatever the time.
    pub fn refuses_always(&self, endpoints: &[RpcEndpoint]) -> (refuses: bool)
        ensures
            refuses == self.always_refuses(endpoints@),
    {
        let (counted, total) = self.batch_cost_within(endpoints, self.maximum_amount);
        counted && total.is_none()
    }

    /// Whether this limit admits the batch whatever the time (see
    /// [`SolanaClientRateLimit::always_admits`]).
    pub fn admits_always(&self, endpoints: &[RpcEndpoint]) -> (admits: bool)
        ensures
            admits == self.always_admits(endpoints@),
    {
        let (counted, total) = self.batch_cost_within(endpoints, self.maximum_amount);
        if !counted {
            return true;
        }
        match total {
            Some(t) => match self.consumed_amount.checked_add(t) {
                Some(sum) => sum <= self.maximum_amount,
                None => false,
            },
            None => false,
        }
    }

    /// Checks whether the endpoints can be executed according to the limit at the instant
    /// `now_millis` (milliseconds since the Unix epoch). Entering a new interval resets the
    /// consumption; nothing is charged.
    pub fn check_endpoints_at(&mut self, endpoints: &[RpcEndpoint], now_millis: i64) -> (admitted:
        bool)
        requires
            old(self).interval != 0,
            !(now_millis == i64::MIN && old(self).interval == -1),
        ensures
            *final(self) == old(self).at_window(now_millis),
            admitted == final(self).admits(endpoints@),
    {
        let now = window_index(now_millis, self.interval);
        if now != self.last_datetime {
            self.last_datetime = now;
            self.consumed_amount = 0;
        }
        let mut consumed_amount = self.consumed_amount;
        let mut i: usize = 0;
        while i < endpoints.len()
            invariant
                i <= endpoints.len(),
                *self == old(self).at_window(now_millis),
                consumed_amount == self.consumed_amount + self.total_cost(endpoints@.take(i as int)),
                self.counts_any(endpoints@.take(i as int)) ==> consumed_amount <= self.maximum_amount,
            decreases endpoints.len() - i,
        {
            let endpoint = &endpoints[i];
            proof {
                assert(endpoints@.take(i + 1).drop_last() =~= endpoints@.take(i as int));
                assert(endpoints@.take(i + 1).last() == *endpoint);
            }
            if self.ignores(endpoint) {
                i += 1;
                continue;
            }
            let amount = match self.amount_for(endpoint) {
                Some(a) => a,
                None => self.default_amount_per_endpoint,
            };
            proof {
                self.lemma_prefix(endpoints@, i + 1);
            }
            match consumed_amount.checked_add(amount) {
                Some(sum) => {
                    consumed_amount = sum;
                },
                None => {
                    return false;
                },
            }
            if consumed_amount > self.maximum_amount {
                return false;
            }
            i += 1;
        }
        proof {
            assert(endpoints@.take(endpoints@.len() as int) =~= endpoints@);
        }
        true
    }

    /// Checks whether the endpoints can be executed according to the current limits, reading
    /// the clock once. Entering a new interval resets the consumption; nothing is charged.
    pub fn check_endpoints(&mut self, endpoints: &[RpcEndpoint]) -> (admitted: bool)
        requires
            old(self).interval != 0,
        ensures
            exists|now: i64|
                #![trigger old(self).at_window(now)]
                now >= 0 && *final(self) == old(self).at_window(now)
                    && admitted == final(self).admits(endpoints@),
    {
        let now = current_millis();
        let admitted = self.check_endpoints_at(endpoints, now);
        assert(*self == old(self).at_window(now));
        admitted
    }

    /// Checks whether the endpoint can be executed according to the current limits.
    pub fn check_endpoint(&mut self, endpoint: RpcEndpoint) -> (admitted: bool)
        requires
            old(self).interval != 0,
        ensures
            exists|now: i64|
                #![trigger old(self).at_window(now)]
                now >= 0 && *final(self) == old(self).at_window(now)
                    && admitted == final(self).admits(seq![endpoint]),
    {
        let batch = [endpoint];
        assert(batch@ =~= seq![endpoint]);
        self.check_endpoints(&batch)
    }

    /// Applies the changes of executing the endpoints: charges their cost.
    pub fn apply_endpoints(&mut self, endpoints: &[RpcEndpoint])
        requires
            old(self).consumed_amount + old(self).total_cost(endpoints@) <= u64::MAX,
        ensures
            *final(self) == old(self).with_applied(endpoints@),
            final(self).consumed_amount == old(self).consumed_amount + old(self).total_cost(
                endpoints@,
            ),
    {
        let mut i: usize = 0;
        while i < endpoints.len()
            invariant
                i <= endpoints.len(),
                old(self).consumed_amount + old(self).total_cost(endpoints@) <= u64::MAX,
                *self == old(self).with_applied(endpoints@.take(i as int)),
            decreases endpoints.len() - i,
        {
            let endpoint = &endpoints[i];
            proof {
                assert(endpoints@.take(i + 1).drop_last() =~= endpoints@.take(i as int));
                assert(endpoints@.take(i + 1).last() == *endpoint);
                old(self).lemma_prefix(endpoints@, i + 1);
                old(self).lemma_cost_nonnegative(endpoints@.take(i as int));
            }
            if self.ignores(endpoint) {
                i += 1;
                continue;
            }
            let amount = match self.amount_for(endpoint) {
                Some(a) => a,
                None => self.default_amount_per_endpoint,
            };
            self.consumed_amount = self.consumed_amount + amount;
            i += 1;
        }
        proof {
            assert(endpoints@.take(endpoints@.len() as int) =~= endpoints@);
            old(self).lemma_cost_nonnegative(endpoints@);
        }
    }

    /// Applies the changes of executing the endpoint: charges its cost.
    pub fn apply_endpoint(&mut self, endpoint: RpcEndpoint)
        requires
            old(self).consumed_amount + old(self).cost(endpoint) <= u64::MAX,
        ensures
            *final(self) == old(self).with_applied(seq![endpoint]),
            final(self).consumed_amount == old(self).consumed_amount + old(self).cost(endpoint),
    {
        let batch = [endpoint];
        proof {
            assert(batch@ =~= seq![endpoint]);
            assert(batch@.drop_last() =~= Seq::<RpcEndpoint>::empty());
            assert(old(self).total_cost(batch@.drop_last()) == 0);
            assert(old(self).total_cost(batch@) == old(self).cost(endpoint));
        }
        self.apply_endpoints(&batch);
    }
}

/// Checking a limit changes only which interval it is in: checking it a second time at the same
/// instant changes nothing, so a check never charges anything.
pub proof fn lemma_check_charges_nothing(limit: SolanaClientRateLimit, now: i64)
    requires
        limit.interval != 0,
        !(now == i64::MIN && limit.interval == -1),
    ensures
        limit.at_window(now).at_window(now) == limit.at_window(now),
        limit.at_window(now).consumed_amount <= limit.consumed_amount,
{
    lemma_trunc_div_fits(now, limit.interval);
}

/// A batch that a limit admits, once charged, leaves the limit within its maximum; a batch that
/// the limit ignores entirely is always admitted and charges nothing.
pub proof fn lemma_admitted_batch_fits(limit: SolanaClientRateLimit, eps: Seq<RpcEndpoint>)
    requires
        limit.admits(eps),
    ensures
        limit.counts_any(eps) ==> limit.with_applied(eps).consumed_amount
            <= limit.maximum_amount,
        !limit.counts_any(eps) ==> limit.with_applied(eps) == limit,
{
    limit.lemma_cost_nonnegative(eps);
    if !limit.counts_any(eps) {
        limit.lemma_ignored_batch_is_free(eps);
    }
}

/// Checking a batch, and charging it when admitted, keeps a limit within its maximum: a limit
/// that has not consumed more than its maximum still has not afterwards.
pub proof fn lemma_budget_kept(limit: SolanaClientRateLimit, eps: Seq<RpcEndpoint>, now: i64)
    requires
        limit.consumed_amount <= limit.maximum_amount,
    ensures
        limit.at_window(now).consumed_amount <= limit.at_window(now).maximum_amount,
        limit.at_window(now).admits(eps) ==> limit.at_window(now).with_applied(eps).consumed_amount
            <= limit.maximum_amount,
{
    let w = limit.at_window(now);
    if w.admits(eps) {
        lemma_admitted_batch_fits(w, eps);
    }
}

/// The cost of two batches together is the sum of their costs, and the two together hold a
/// counted endpoint when one of them does.
pub proof fn lemma_concat(limit: SolanaClientRateLimit, a: Seq<RpcEndpoint>, b: Seq<RpcEndpoint>)
    ensures
        limit.total_cost(a + b) == limit.total_cost(a) + limit.total_cost(b),
        limit.counts_any(a + b) == (limit.counts_any(a) || limit.counts_any(b)),
    decreases b.len(),
{
    if b.len() == 0 {
        assert(a + b =~= a);
    } else {
        assert((a + b).drop_last() =~= a + b.drop_last());
        lemma_concat(limit, a, b.drop_last());
    }
}

/// Taking one endpoint out of a batch takes its cost out of the batch's cost.
pub proof fn lemma_remove_one(limit: SolanaClientRateLimit, s: Seq<RpcEndpoint>, j: int)
    requires
        0 <= j < s.len(),
    ensures
        limit.total_cost(s) == limit.total_cost(s.remove(j)) + limit.cost(s[j]),
        limit.counts_any(s) == (limit.counts_any(s.remove(j)) || !limit.is_ignored(s[j])),
    decreases s.len(),
{
    if j == s.len() - 1 {
        assert(s.remove(j) =~= s.drop_last());
    } else {
        assert(s.remove(j).drop_last() =~= s.drop_last().remove(j));
        assert(s.remove(j).last() == s.last());
        lemma_remove_one(limit, s.drop_last(), j);
    }
}

/// Two batches that hold the same endpoints, in any order, cost the same and hold a counted
/// endpoint alike.
pub proof fn lemma_same_endpoints(limit: SolanaClientRateLimit, s: Seq<RpcEndpoint>, t: Seq<RpcEndpoint>)
    requires
        s.to_multiset() == t.to_multiset(),
    ensures
        limit.total_cost(s) == limit.total_cost(t),
        limit.counts_any(s) == limit.counts_any(t),
    decreases s.len(),
{
    broadcast use vstd::seq_lib::group_to_multiset_ensures;
    broadcast use vstd::multiset::group_multiset_axioms;

    if s.len() == 0 {
        vstd::seq_lib::to_multiset_len(s);
        vstd::seq_lib::to_multiset_len(t);
        assert(t.len() == 0);
        assert(t =~= s);
    } else {
        let x = s.last();
        assert(s =~= s.drop_last().push(x));
        assert(s.to_multiset().count(x) > 0);
        assert(t.contains(x));
        let j = choose|j: int| 0 <= j < t.len() && t[j] == x;
        assert(t.remove(j).to_multiset() == t.to_multiset().remove(x));
        assert(s.drop_last().to_multiset() =~= s.to_multiset().remove(x));
        lemma_same_endpoints(limit, s.drop_last(), t.remove(j));
        lemma_remove_one(limit, t, j);
    }
}

/// The order of the endpoints in a batch does not matter: a limit admits and charges two
/// batches that hold the same endpoints alike.
pub proof fn lemma_batch_order_irrelevant(
    limit: SolanaClientRateLimit,
    s: Seq<RpcEndpoint>,
    t: Seq<RpcEndpoint>,
)
    requires
        s.to_multiset() == t.to_multiset(),
    ensures
        limit.admits(s) == limit.admits(t),
        limit.with_applied(s) == limit.with_applied(t),
        limit.always_admits(s) == limit.always_admits(t),
        limit.always_refuses(s) == limit.always_refuses(t),
{
    lemma_same_endpoints(limit, s, t);
}

/// Adding endpoints to a batch never turns a refusal into an admission: a limit that admits a
/// batch admits any batch it holds part of.
pub proof fn lemma_more_endpoints_never_admit_more(
    limit: SolanaClientRateLimit,
    part: Seq<RpcEndpoint>,
    extra: Seq<RpcEndpoint>,
    batch: Seq<RpcEndpoint>,
)
    requires
        batch.to_multiset() == (part + extra).to_multiset(),
    ensures
        limit.total_cost(part) <= limit.total_cost(batch),
        limit.admits(batch) ==> limit.admits(part),
{
    lemma_same_endpoints(limit, batch, part + extra);
    lemma_concat(limit, part, extra);
    limit.lemma_cost_nonnegative(extra);
}


/// A call of one of the builders that decide how a limit treats an endpoint.
pub enum TariffCall {
    /// `add_endpoint_amount(endpoint, amount)`.
    Amount(RpcEndpoint, u64),
    /// `ignore_endpoint(endpoint)`.
    Ignore(RpcEndpoint),
    /// `ignores_all_endpoints()`.
    IgnoreAll,
}

impl TariffCall {
    /// Whether this call decides how an endpoint is treated.
    pub open spec fn names(self, e: RpcEndpoint) -> bool {
        match self {
            TariffCall::Amount(x, _) => x@ == e@,
            TariffCall::Ignore(x) => x@ == e@,
            TariffCall::IgnoreAll => true,
        }
    }

    /// The amount this call gives to the endpoints it names (`None`: it ignores them).
    pub open spec fn amount(self) -> Option<u64> {
        match self {
            TariffCall::Amount(_, a) => Some(a),
            _ => None,
        }
    }
}

impl SolanaClientRateLimit {
    /// Whether this limit is what `call` makes of `before`: the endpoints it names get its
    /// amount, or are ignored with no amount of their own, and nothing else changes.
    pub open spec fn made_by(self, before: Self, call: TariffCall) -> bool {
        &&& self.same_budget(&before)
        &&& forall|e: RpcEndpoint|
            #![trigger self.amount_of(e)]
            #![trigger self.is_ignored(e)]
            if call.names(e) {
                self.amount_of(e) == call.amount() && self.is_ignored(e) == (call.amount() is None)
            } else {
                self.amount_of(e) == before.amount_of(e) && self.is_ignored(e) == before.is_ignored(
                    e,
                )
            }
    }
}

/// Whether `limits[i + 1]` is what `calls[i]` makes of `limits[i]`, for each call in turn.
pub open spec fn built_by(limits: Seq<SolanaClientRateLimit>, calls: Seq<TariffCall>) -> bool {
    &&& limits.len() == calls.len() + 1
    &&& forall|i: int| 0 <= i < calls.len() ==> limits[i + 1].made_by(limits[i], #[trigger] calls[i])
}

/// The last of `calls` that names `e`, if any.
pub open spec fn last_call_naming(calls: Seq<TariffCall>, e: RpcEndpoint) -> Option<TariffCall>
    decreases calls.len(),
{
    if calls.len() == 0 {
        None
    } else if calls.last().names(e) {
        Some(calls.last())
    } else {
        last_call_naming(calls.drop_last(), e)
    }
}

/// Whatever the order of the builder calls, the last call that names an endpoint decides
/// whether it has an amount of its own (and which) or is ignored, and what it costs; an
/// endpoint that no call names is treated as before. No endpoint is both given an amount and
/// ignored, if none was at the start.
pub proof fn lemma_last_call_decides(
    limits: Seq<SolanaClientRateLimit>,
    calls: Seq<TariffCall>,
    e: RpcEndpoint,
)
    requires
        built_by(limits, calls),
    ensures
        limits.last().same_budget(&limits[0]),
        match last_call_naming(calls, e) {
            Some(call) => {
                &&& limits.last().amount_of(e) == call.amount()
                &&& limits.last().is_ignored(e) == (call.amount() is None)
                &&& limits.last().cost(e) == match call.amount() {
                    Some(a) => a,
                    None => 0,
                }
            },
            None => {
                &&& limits.last().amount_of(e) == limits[0].amount_of(e)
                &&& limits.last().is_ignored(e) == limits[0].is_ignored(e)
                &&& limits.last().cost(e) == limits[0].cost(e)
            },
        },
        limits[0].tariff_consistent() ==> limits.last().tariff_consistent(),
    decreases calls.len(),
{
    if calls.len() > 0 {
        let n = calls.len() - 1;
        let rest = limits.drop_last();
        assert(built_by(rest, calls.drop_last())) by {
            assert forall|i: int| 0 <= i < calls.drop_last().len() implies rest[i + 1].made_by(
                rest[i],
                #[trigger] calls.drop_last()[i],
            ) by {
                assert(calls[i] == calls.drop_last()[i]);
            }
        }
        lemma_last_call_decides(rest, calls.drop_last(), e);
        let before = limits[n];
        let after = limits.last();
        assert(after.made_by(before, calls[n]));
        assert(rest.last() == before);
        assert(after.amount_of(e) == before.amount_of(e) || calls.last().names(e));
        assert(after.is_ignored(e) == before.is_ignored(e) || calls.last().names(e));
        if limits[0].tariff_consistent() {
            assert forall|x: RpcEndpoint| #[trigger] after.amount_of(x) is Some implies !after.is_ignored(x) by {
                assert(before.amount_of(x) is Some ==> !before.is_ignored(x));
            }
        }
    }
}


/// Charging a batch adds what it costs to the consumption, whether or not the batch fits in
/// the budget, and changes nothing else.
pub proof fn lemma_charge_adds_cost(limit: SolanaClientRateLimit, eps: Seq<RpcEndpoint>)
    requires
        limit.consumed_amount + limit.total_cost(eps) <= u64::MAX,
    ensures
        limit.with_applied(eps).consumed_amount == limit.consumed_amount + limit.total_cost(eps),
        limit.with_applied(eps).last_datetime == limit.last_datetime,
        limit.with_applied(eps).interval == limit.interval,
        limit.with_applied(eps).maximum_amount == limit.maximum_amount,
        limit.with_applied(eps).default_amount_per_endpoint == limit.default_amount_per_endpoint,
        limit.with_applied(eps).endpoint_amounts == limit.endpoint_amounts,
        limit.with_applied(eps).ignore_endpoints == limit.ignore_endpoints,
        limit.with_applied(eps).custom_amounts == limit.custom_amounts,
        limit.with_applied(eps).ignore_custom_methods == limit.ignore_custom_methods,
        limit.with_applied(eps).ignores_other_custom_methods == limit.ignores_other_custom_methods,
{
    limit.lemma_cost_nonnegative(eps);
}

/// Charging two batches one after the other leaves a limit as charging them together does.
pub proof fn lemma_charges_add_up(
    limit: SolanaClientRateLimit,
    a: Seq<RpcEndpoint>,
    b: Seq<RpcEndpoint>,
)
    requires
        limit.consumed_amount + limit.total_cost(a + b) <= u64::MAX,
    ensures
        limit.with_applied(a).with_applied(b) == limit.with_applied(a + b),
{
    lemma_concat(limit, a, b);
    limit.lemma_cost_nonnegative(a);
    limit.lemma_cost_nonnegative(b);
    let first = limit.with_applied(a);
    first.lemma_same_tariff(&limit, b);
}

/// For a positive interval and a reading at or after the epoch, the interval that a check falls
/// in is the reading divided by the interval. A check in another interval than the last one
/// starts that interval with nothing consumed; one in the same interval changes nothing.
pub proof fn lemma_interval_of_reading(limit: SolanaClientRateLimit, now: i64)
    requires
        limit.interval > 0,
        now >= 0,
    ensures
        limit.at_window(now).last_datetime == now as int / limit.interval as int,
        now as int / limit.interval as int != limit.last_datetime ==> limit.at_window(
            now,
        ).consumed_amount == 0,
        now as int / limit.interval as int == limit.last_datetime ==> limit.at_window(now)
            == limit,
        limit.at_window(now).maximum_amount == limit.maximum_amount,
        limit.at_window(now).interval == limit.interval,
{
    lemma_trunc_div_fits(now, limit.interval);
}

} // verus!

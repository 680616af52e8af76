//! The policy registry: farmers register parametric insurance policies, which
//! later expire or change state when a trigger fires.

use vstd::prelude::*;

use crate::address::{copy_bytes, Address};
use crate::keyed::{
    has_key, keyed_map, lemma_keyed_map_at, lemma_keyed_map_push, lemma_keyed_map_update, unique_keys,
};

verus! {

/// Where a policy stands in its life.
#[derive(Clone, Copy, Debug, PartialEq, Eq, Structural)]
pub enum PolicyState {
    Active,
    Triggered,
    Expired,
}

/// Why a request to the policy registry was refused.
#[derive(Clone, Copy, Debug, PartialEq, Eq, Structural)]
pub enum Error {
    AlreadyInitialized,
    NotInitialized,
    Unauthorized,
    InvalidTimeRange,
    InvalidAmount,
    PolicyNotFound,
    PolicyNotActive,
    PoolLockFailed,
}

/// A registered insurance policy.
#[derive(Clone, Debug, PartialEq, Eq)]
pub struct Policy {
    pub policy_id: u64,
    pub farmer: Address,
    pub farm_geohash: Vec<u8>,
    pub crop_type: Vec<u8>,
    pub season_start: u64,
    pub season_end: u64,
    pub coverage_amount: i128,
    /// Rainfall threshold in millimetres.
    pub rainfall_threshold: u32,
    /// Vegetation index baseline, scaled by 10000.
    pub ndvi_baseline: u32,
    pub state: PolicyState,
}

/// A policy as a mathematical value.
pub struct PolicyView {
    pub policy_id: u64,
    pub farmer: Seq<u8>,
    pub farm_geohash: Seq<u8>,
    pub crop_type: Seq<u8>,
    pub season_start: u64,
    pub season_end: u64,
    pub coverage_amount: i128,
    pub rainfall_threshold: u32,
    pub ndvi_baseline: u32,
    pub state: PolicyState,
}

impl View for Policy {
    type V = PolicyView;

    open spec fn view(&self) -> PolicyView {
        PolicyView {
            policy_id: self.policy_id,
            farmer: self.farmer@,
            farm_geohash: self.farm_geohash@,
            crop_type: self.crop_type@,
            season_start: self.season_start,
            season_end: self.season_end,
            coverage_amount: self.coverage_amount,
            rainfall_threshold: self.rainfall_threshold,
            ndvi_baseline: self.ndvi_baseline,
            state: self.state,
        }
    }
}

impl Policy {
    /// A copy of this policy.
    pub fn duplicate(&self) -> (p: Policy)
        ensures
            p@ == self@,
    {
        Policy {
            policy_id: self.policy_id,
            farmer: self.farmer.duplicate(),
            farm_geohash: copy_bytes(&self.farm_geohash),
            crop_type: copy_bytes(&self.crop_type),
            season_start: self.season_start,
            season_end: self.season_end,
            coverage_amount: self.coverage_amount,
            rainfall_threshold: self.rainfall_threshold,
            ndvi_baseline: self.ndvi_baseline,
            state: self.state,
        }
    }
}

/// The registry's settings: who administers it and which pool backs its policies.
#[derive(Clone, Debug, PartialEq, Eq)]
pub struct Config {
    pub admin: Address,
    pub pool_contract: Address,
}

/// The settings as a mathematical value.
pub struct ConfigView {
    pub admin: Seq<u8>,
    pub pool_contract: Seq<u8>,
}

impl View for Config {
    type V = ConfigView;

    open spec fn view(&self) -> ConfigView {
        ConfigView { admin: self.admin@, pool_contract: self.pool_contract@ }
    }
}

/// The ids of the policies that one farmer registered, oldest first.
struct FarmerPolicies {
    farmer: Address,
    policy_ids: Vec<u64>,
}

/// The stored data of the policy registry.
pub struct PolicyContract {
    config: Option<Config>,
    next_policy_id: Option<u64>,
    policies: Vec<Policy>,
    farmer_policies: Vec<FarmerPolicies>,
}

/// The registry's stored data as mathematical values: the settings, the id the
/// next policy gets, the policies by id, and each farmer's list of policy ids.
#[verifier::ext_equal]
pub struct PolicyContractView {
    pub config: Option<ConfigView>,
    pub next_policy_id: Option<u64>,
    pub policies: Map<u64, PolicyView>,
    pub farmer_policies: Map<Seq<u8>, Seq<u64>>,
}

pub open spec fn policy_key() -> spec_fn(Policy) -> u64 {
    |p: Policy| p.policy_id
}

pub open spec fn policy_value() -> spec_fn(Policy) -> PolicyView {
    |p: Policy| p@
}

spec fn farmer_key() -> spec_fn(FarmerPolicies) -> Seq<u8> {
    |e: FarmerPolicies| e.farmer@
}

spec fn farmer_value() -> spec_fn(FarmerPolicies) -> Seq<u64> {
    |e: FarmerPolicies| e.policy_ids@
}

pub open spec fn config_view(c: Option<Config>) -> Option<ConfigView> {
    match c {
        Some(c) => Some(c@),
        None => None,
    }
}

pub open spec fn policy_result_view(r: Result<Policy, Error>) -> Result<PolicyView, Error> {
    match r {
        Ok(p) => Ok(p@),
        Err(e) => Err(e),
    }
}

impl View for PolicyContract {
    type V = PolicyContractView;

    closed spec fn view(&self) -> PolicyContractView {
        PolicyContractView {
            config: config_view(self.config),
            next_policy_id: self.next_policy_id,
            policies: keyed_map(self.policies@, policy_key(), policy_value()),
            farmer_policies: keyed_map(self.farmer_policies@, farmer_key(), farmer_value()),
        }
    }
}

impl PolicyContractView {
    /// The registry before anything was stored.
    pub open spec fn empty() -> Self {
        PolicyContractView {
            config: None,
            next_policy_id: None,
            policies: Map::empty(),
            farmer_policies: Map::empty(),
        }
    }

    /// What holds of every state the registry's operations reach: settings and
    /// id counter are set together and the counter is at least 1; each policy
    /// is stored under its own id, at least 1 and below the counter; each
    /// farmer's list holds, in increasing order, the ids of exactly the
    /// policies that farmer registered.
    pub open spec fn inv(self) -> bool {
        &&& (self.config is Some) == (self.next_policy_id is Some)
        &&& self.next_policy_id matches Some(n) ==> 1 <= n
        &&& forall|id: u64| #[trigger]
            self.policies.dom().contains(id) ==> {
                &&& self.policies[id].policy_id == id
                &&& 1 <= id
                &&& self.next_policy_id is Some
                &&& id < self.next_policy_id->0
                &&& self.farmer_policies.dom().contains(self.policies[id].farmer)
                &&& self.farmer_policies[self.policies[id].farmer].contains(id)
            }
        &&& forall|f: Seq<u8>, i: int| #[trigger]
            self.farmer_policies.dom().contains(f) && 0 <= i < self.farmer_policies[f].len() ==> {
                &&& self.policies.dom().contains(#[trigger] self.farmer_policies[f][i])
                &&& self.policies[self.farmer_policies[f][i]].farmer == f
            }
        &&& forall|f: Seq<u8>, i: int, j: int|
            self.farmer_policies.dom().contains(f) && 0 <= i < j < self.farmer_policies[f].len()
                ==> #[trigger] self.farmer_policies[f][i] < #[trigger] self.farmer_policies[f][j]
    }

    /// The ids of the policies of `farmer`; empty for a farmer with none.
    pub open spec fn policies_of(self, farmer: Seq<u8>) -> Seq<u64> {
        if self.farmer_policies.dom().contains(farmer) {
            self.farmer_policies[farmer]
        } else {
            Seq::empty()
        }
    }

    /// Setting up the registry, once.
    pub open spec fn initialize(self, admin: Seq<u8>, pool_contract: Seq<u8>) -> (
        Self,
        Result<(), Error>,
    ) {
        if self.config is Some {
            (self, Err(Error::AlreadyInitialized))
        } else {
            (
                PolicyContractView {
                    config: Some(ConfigView { admin, pool_contract }),
                    next_policy_id: Some(1),
                    ..self
                },
                Ok(()),
            )
        }
    }

    /// The id that the next registered policy gets.
    pub open spec fn next_id(self) -> u64 {
        match self.next_policy_id {
            Some(n) => n,
            None => 1,
        }
    }

    /// Whether registering with these terms would step the id counter past `u64::MAX`.
    pub open spec fn register_overflows(
        self,
        season_start: u64,
        season_end: u64,
        coverage_amount: i128,
    ) -> bool {
        registration_outcome(
            self.config is Some,
            self.next_policy_id,
            season_start,
            season_end,
            coverage_amount,
        ) == Ok::<u64, Error>(u64::MAX)
    }

    /// Registering a policy: the season must end after it starts, the coverage
    /// must be positive and the registry set up; the policy gets the next id,
    /// starts active, and its id is appended to the farmer's list.
    pub open spec fn register(
        self,
        farmer: Seq<u8>,
        farm_geohash: Seq<u8>,
        crop_type: Seq<u8>,
        season_start: u64,
        season_end: u64,
        coverage_amount: i128,
        rainfall_threshold: u32,
        ndvi_baseline: u32,
    ) -> (Self, Result<u64, Error>) {
        match registration_outcome(
            self.config is Some,
            self.next_policy_id,
            season_start,
            season_end,
            coverage_amount,
        ) {
            Err(e) => (self, Err(e)),
            Ok(id) => {
                let policy = PolicyView {
                    policy_id: id,
                    farmer,
                    farm_geohash,
                    crop_type,
                    season_start,
                    season_end,
                    coverage_amount,
                    rainfall_threshold,
                    ndvi_baseline,
                    state: PolicyState::Active,
                };
                (
                    PolicyContractView {
                        next_policy_id: Some((id + 1) as u64),
                        policies: self.policies.insert(id, policy),
                        farmer_policies: self.farmer_policies.insert(
                            farmer,
                            self.policies_of(farmer).push(id),
                        ),
                        ..self
                    },
                    Ok(id),
                )
            },
        }
    }

    /// The policy stored under `policy_id`, if any.
    pub open spec fn lookup(self, policy_id: u64) -> Option<PolicyView> {
        if self.policies.dom().contains(policy_id) {
            Some(self.policies[policy_id])
        } else {
            None
        }
    }

    /// Looking up a policy by id.
    pub open spec fn get_policy(self, policy_id: u64) -> Result<PolicyView, Error> {
        lookup_outcome(self.lookup(policy_id))
    }

    /// The registry with the state of policy `policy_id` (which must exist) set to `state`.
    pub open spec fn with_state(self, policy_id: u64, state: PolicyState) -> Self {
        PolicyContractView {
            policies: self.policies.insert(
                policy_id,
                PolicyView { state, ..self.policies[policy_id] },
            ),
            ..self
        }
    }

    /// Expiring a policy: it must exist, be active, and its season must have
    /// ended before `current_time`.
    pub open spec fn expire(self, current_time: u64, policy_id: u64) -> (Self, Result<(), Error>) {
        match expiry_outcome(self.lookup(policy_id), current_time) {
            Ok(p) => (PolicyContractView { policies: self.policies.insert(policy_id, p), ..self }, Ok(())),
            Err(e) => (self, Err(e)),
        }
    }

    /// Setting the state of a policy: the registry must be set up and the policy exist.
    pub open spec fn update_state(self, policy_id: u64, new_state: PolicyState) -> (
        Self,
        Result<(), Error>,
    ) {
        match state_update_outcome(self.config is Some, self.lookup(policy_id), new_state) {
            Ok(p) => (PolicyContractView { policies: self.policies.insert(policy_id, p), ..self }, Ok(())),
            Err(e) => (self, Err(e)),
        }
    }
}


/// Setting up the registry keeps the invariant.
pub proof fn lemma_initialize_inv(s: PolicyContractView, admin: Seq<u8>, pool_contract: Seq<u8>)
    requires
        s.inv(),
    ensures
        s.initialize(admin, pool_contract).0.inv(),
{
    let t = s.initialize(admin, pool_contract).0;
    if s.config is None {
        assert forall|f: Seq<u8>, i: int|
            #![trigger t.farmer_policies[f][i]]
            t.farmer_policies.dom().contains(f) && 0 <= i < t.farmer_policies[f].len() implies false by {
            assert(s.policies.dom().contains(s.farmer_policies[f][i]));
        }
    }
}

/// Registering a policy keeps the invariant.
pub proof fn lemma_register_inv(
    s: PolicyContractView,
    farmer: Seq<u8>,
    farm_geohash: Seq<u8>,
    crop_type: Seq<u8>,
    season_start: u64,
    season_end: u64,
    coverage_amount: i128,
    rainfall_threshold: u32,
    ndvi_baseline: u32,
)
    requires
        s.inv(),
        !s.register_overflows(season_start, season_end, coverage_amount),
    ensures
        s.register(
            farmer,
            farm_geohash,
            crop_type,
            season_start,
            season_end,
            coverage_amount,
            rainfall_threshold,
            ndvi_baseline,
        ).0.inv(),
{
    let (t, r) = s.register(
        farmer,
        farm_geohash,
        crop_type,
        season_start,
        season_end,
        coverage_amount,
        rainfall_threshold,
        ndvi_baseline,
    );
    if r is Ok {
        let id = s.next_id();
        assert(!s.policies.dom().contains(id));
        assert forall|k: u64| #[trigger] t.policies.dom().contains(k) implies {
            &&& t.policies[k].policy_id == k
            &&& t.next_policy_id is Some
            &&& k < t.next_policy_id->0
            &&& t.farmer_policies.dom().contains(t.policies[k].farmer)
            &&& t.farmer_policies[t.policies[k].farmer].contains(k)
        } by {
            if k == id {
                assert(t.farmer_policies[farmer].last() == id);
            } else {
                let g = s.policies[k].farmer;
                if g == farmer {
                    let j = choose|j: int|
                        0 <= j < s.farmer_policies[g].len() && s.farmer_policies[g][j] == k;
                    assert(t.farmer_policies[g][j] == k);
                }
            }
        }
        assert forall|f: Seq<u8>, i: int|
            #[trigger] t.farmer_policies.dom().contains(f) && 0 <= i < t.farmer_policies[f].len()
            implies {
            &&& t.policies.dom().contains(#[trigger] t.farmer_policies[f][i])
            &&& t.policies[t.farmer_policies[f][i]].farmer == f
        } by {
            if f == farmer && i < s.policies_of(farmer).len() {
                assert(t.farmer_policies[f][i] == s.farmer_policies[f][i]);
                assert(s.policies.dom().contains(s.farmer_policies[f][i]));
            }
        }
        assert forall|f: Seq<u8>, i: int, j: int|
            t.farmer_policies.dom().contains(f) && 0 <= i < j < t.farmer_policies[f].len()
            implies #[trigger] t.farmer_policies[f][i] < #[trigger] t.farmer_policies[f][j] by {
            if f == farmer {
                assert(s.policies.dom().contains(s.farmer_policies[f][i]));
                if j < s.policies_of(farmer).len() {
                    assert(s.farmer_policies[f][i] < s.farmer_policies[f][j]);
                }
            }
        }
    }
}

/// Changing the state of an existing policy keeps the invariant.
pub proof fn lemma_with_state_inv(s: PolicyContractView, policy_id: u64, state: PolicyState)
    requires
        s.inv(),
        s.policies.dom().contains(policy_id),
    ensures
        s.with_state(policy_id, state).inv(),
{
    let t = s.with_state(policy_id, state);
    assert forall|f: Seq<u8>, i: int|
        #[trigger] t.farmer_policies.dom().contains(f) && 0 <= i < t.farmer_policies[f].len()
        implies {
        &&& t.policies.dom().contains(#[trigger] t.farmer_policies[f][i])
        &&& t.policies[t.farmer_policies[f][i]].farmer == f
    } by {
        assert(s.policies.dom().contains(s.farmer_policies[f][i]));
    }
}

/// The list of policy ids stored for a farmer, read as a sequence; an absent
/// list reads as empty.
pub open spec fn stored_list(list: Option<Vec<u64>>) -> Seq<u64> {
    match list {
        Some(l) => l@,
        None => Seq::empty(),
    }
}

/// What a registration comes to before anything is written: the refusal, or
/// the id the new policy gets.
pub open spec fn registration_outcome(
    initialized: bool,
    next_policy_id: Option<u64>,
    season_start: u64,
    season_end: u64,
    coverage_amount: i128,
) -> Result<u64, Error> {
    if season_end <= season_start {
        Err(Error::InvalidTimeRange)
    } else if coverage_amount <= 0 {
        Err(Error::InvalidAmount)
    } else if !initialized {
        Err(Error::NotInitialized)
    } else {
        Ok(
            match next_policy_id {
                Some(n) => n,
                None => 1,
            },
        )
    }
}

/// What a successful registration writes: the new policy, the farmer's
/// updated list of policy ids, and the next value of the id counter.
pub struct Registration {
    pub policy: Policy,
    pub farmer_policies: Vec<u64>,
    pub next_policy_id: u64,
}

/// The decision of a registration, from the stored data it reads: whether the
/// registry is set up, the id counter, and the farmer's list of policy ids.
pub fn register_step(
    initialized: bool,
    next_policy_id: Option<u64>,
    farmer_policies: Option<Vec<u64>>,
    farmer: Address,
    farm_geohash: Vec<u8>,
    crop_type: Vec<u8>,
    season_start: u64,
    season_end: u64,
    coverage_amount: i128,
    rainfall_threshold: u32,
    ndvi_baseline: u32,
) -> (r: Result<Registration, Error>)
    requires
        registration_outcome(
            initialized,
            next_policy_id,
            season_start,
            season_end,
            coverage_amount,
        ) != Ok::<u64, Error>(u64::MAX),
    ensures
        (r is Ok) == (registration_outcome(
            initialized,
            next_policy_id,
            season_start,
            season_end,
            coverage_amount,
        ) is Ok),
        r matches Err(e) ==> registration_outcome(
            initialized,
            next_policy_id,
            season_start,
            season_end,
            coverage_amount,
        ) == Err::<u64, Error>(e),
        r matches Ok(reg) ==> {
            &&& registration_outcome(
                initialized,
                next_policy_id,
                season_start,
                season_end,
                coverage_amount,
            ) == Ok::<u64, Error>(reg.policy.policy_id)
            &&& reg.policy@ == PolicyView {
                policy_id: reg.policy.policy_id,
                farmer: farmer@,
                farm_geohash: farm_geohash@,
                crop_type: crop_type@,
                season_start,
                season_end,
                coverage_amount,
                rainfall_threshold,
                ndvi_baseline,
                state: PolicyState::Active,
            }
            &&& reg.farmer_policies@ == stored_list(farmer_policies).push(reg.policy.policy_id)
            &&& farmer_policies matches Some(l) ==> reg.farmer_policies@ == l@.push(
                reg.policy.policy_id,
            )
            &&& farmer_policies is None ==> reg.farmer_policies@ == seq![reg.policy.policy_id]
            &&& reg.next_policy_id == reg.policy.policy_id + 1
        },
{
    if season_end <= season_start {
        return Err(Error::InvalidTimeRange);
    }
    if coverage_amount <= 0 {
        return Err(Error::InvalidAmount);
    }
    if !initialized {
        return Err(Error::NotInitialized);
    }
    let policy_id: u64 = match next_policy_id {
        Some(n) => n,
        None => 1,
    };
    let mut list = match farmer_policies {
        Some(l) => l,
        None => Vec::new(),
    };
    list.push(policy_id);
    let policy = Policy {
        policy_id,
        farmer,
        farm_geohash,
        crop_type,
        season_start,
        season_end,
        coverage_amount,
        rainfall_threshold,
        ndvi_baseline,
        state: PolicyState::Active,
    };
    Ok(Registration { policy, farmer_policies: list, next_policy_id: policy_id + 1 })
}

/// The stored policy, read as a value; `None` when there is none.
pub open spec fn stored_policy(p: Option<&Policy>) -> Option<PolicyView> {
    match p {
        Some(p) => Some(p@),
        None => None,
    }
}

/// What an expiry comes to: the refusal, or the policy to store.
pub open spec fn expiry_outcome(stored: Option<PolicyView>, current_time: u64) -> Result<
    PolicyView,
    Error,
> {
    match stored {
        None => Err(Error::PolicyNotFound),
        Some(p) => if p.state != PolicyState::Active {
            Err(Error::PolicyNotActive)
        } else if current_time <= p.season_end {
            Err(Error::InvalidTimeRange)
        } else {
            Ok(PolicyView { state: PolicyState::Expired, ..p })
        },
    }
}

/// The decision of an expiry at ledger time `current_time`, from the stored policy.
pub fn expire_step(stored: Option<&Policy>, current_time: u64) -> (r: Result<Policy, Error>)
    ensures
        policy_result_view(r) == expiry_outcome(stored_policy(stored), current_time),
        (r is Ok) == (stored matches Some(p) && p.state == PolicyState::Active && current_time
            > p.season_end),
        r matches Ok(q) ==> (stored matches Some(p) && q@ == PolicyView {
            state: PolicyState::Expired,
            ..p@
        }),
{
    match stored {
        None => Err(Error::PolicyNotFound),
        Some(p) => {
            if p.state != PolicyState::Active {
                return Err(Error::PolicyNotActive);
            }
            if current_time <= p.season_end {
                return Err(Error::InvalidTimeRange);
            }
            let mut q = p.duplicate();
            q.state = PolicyState::Expired;
            Ok(q)
        },
    }
}

/// What a state change comes to: the refusal, or the policy to store.
pub open spec fn state_update_outcome(
    initialized: bool,
    stored: Option<PolicyView>,
    new_state: PolicyState,
) -> Result<PolicyView, Error> {
    if !initialized {
        Err(Error::NotInitialized)
    } else {
        match stored {
            None => Err(Error::PolicyNotFound),
            Some(p) => Ok(PolicyView { state: new_state, ..p }),
        }
    }
}

/// The decision of a state change, from whether the registry is set up and the stored policy.
pub fn update_state_step(initialized: bool, stored: Option<&Policy>, new_state: PolicyState) -> (r:
    Result<Policy, Error>)
    ensures
        policy_result_view(r) == state_update_outcome(initialized, stored_policy(stored), new_state),
        (r is Ok) == (initialized && stored is Some),
        r matches Ok(q) ==> (stored matches Some(p) && q@ == PolicyView { state: new_state, ..p@ }),
{
    if !initialized {
        return Err(Error::NotInitialized);
    }
    match stored {
        None => Err(Error::PolicyNotFound),
        Some(p) => {
            let mut q = p.duplicate();
            q.state = new_state;
            Ok(q)
        },
    }
}

/// What setting up the registry writes: the settings and the first value of
/// the id counter.
pub struct Setup {
    pub config: Config,
    pub next_policy_id: u64,
}

/// The decision of setting up the registry: what to store, or
/// `AlreadyInitialized` when it is set up already.
pub fn initialize_step(initialized: bool, admin: Address, pool_contract: Address) -> (r: Result<
    Setup,
    Error,
>)
    ensures
        initialized ==> (r matches Err(e) && e == Error::AlreadyInitialized),
        !initialized ==> (r matches Ok(s) && s.config@ == (ConfigView {
            admin: admin@,
            pool_contract: pool_contract@,
        }) && s.next_policy_id == 1),
{
    if initialized {
        return Err(Error::AlreadyInitialized);
    }
    Ok(Setup { config: Config { admin, pool_contract }, next_policy_id: 1 })
}

/// Whether a registration with these terms would step the id counter past
/// `u64::MAX`; `register_step` may only be called when it would not.
pub fn registration_overflows(
    initialized: bool,
    next_policy_id: Option<u64>,
    season_start: u64,
    season_end: u64,
    coverage_amount: i128,
) -> (r: bool)
    ensures
        r == (registration_outcome(
            initialized,
            next_policy_id,
            season_start,
            season_end,
            coverage_amount,
        ) == Ok::<u64, Error>(u64::MAX)),
{
    season_start < season_end && coverage_amount > 0 && initialized && match next_policy_id {
        Some(n) => n == u64::MAX,
        None => false,
    }
}

/// The stored policy, taken by value, read as a value; `None` when there is none.
pub open spec fn owned_policy(p: Option<Policy>) -> Option<PolicyView> {
    match p {
        Some(p) => Some(p@),
        None => None,
    }
}

/// What a lookup comes to: the stored policy, or `PolicyNotFound`.
pub open spec fn lookup_outcome(stored: Option<PolicyView>) -> Result<PolicyView, Error> {
    match stored {
        Some(p) => Ok(p),
        None => Err(Error::PolicyNotFound),
    }
}

/// The answer to a lookup, from the stored policy.
pub fn get_policy_step(stored: Option<Policy>) -> (r: Result<Policy, Error>)
    ensures
        policy_result_view(r) == lookup_outcome(owned_policy(stored)),
{
    match stored {
        Some(p) => Ok(p),
        None => Err(Error::PolicyNotFound),
    }
}

/// The answer to listing a farmer's policies, from the stored list: it, or
/// the empty list when there is none.
pub fn list_step(stored: Option<Vec<u64>>) -> (r: Vec<u64>)
    ensures
        r@ == stored_list(stored),
        stored matches Some(l) ==> r@ == l@,
        stored is None ==> r@.len() == 0,
{
    match stored {
        Some(l) => l,
        None => Vec::new(),
    }
}

impl PolicyContract {
    /// The stored data is consistent: ids occur once in each list, and the
    /// mathematical view satisfies the registry's invariant.
    pub closed spec fn wf(&self) -> bool {
        &&& unique_keys(self.policies@, policy_key())
        &&& unique_keys(self.farmer_policies@, farmer_key())
        &&& self@.inv()
    }

    /// A consistent registry satisfies the invariant on its view.
    pub proof fn lemma_wf_inv(&self)
        requires
            self.wf(),
        ensures
            self@.inv(),
    {
    }

    /// The registry before anything was stored.
    pub fn new() -> (c: PolicyContract)
        ensures
            c.wf(),
            c@ == PolicyContractView::empty(),
    {
        let c = PolicyContract {
            config: None,
            next_policy_id: None,
            policies: Vec::new(),
            farmer_policies: Vec::new(),
        };
        assert(c@.policies =~= Map::empty());
        assert(c@.farmer_policies =~= Map::empty());
        c
    }

    /// The position of the policy with id `policy_id`, if there is one.
    fn find_policy(&self, policy_id: u64) -> (r: Option<usize>)
        ensures
            match r {
                Some(i) => i < self.policies@.len() && self.policies@[i as int].policy_id
                    == policy_id,
                None => !has_key(self.policies@, policy_key(), policy_id),
            },
    {
        let n = self.policies.len();
        let mut i: usize = 0;
        while i < n
            invariant
                n == self.policies@.len(),
                i <= n,
                forall|j: int| 0 <= j < i ==> #[trigger] self.policies@[j].policy_id != policy_id,
            decreases n - i,
        {
            if self.policies[i].policy_id == policy_id {
                return Some(i);
            }
            i = i + 1;
        }
        assert forall|j: int| 0 <= j < self.policies@.len() implies #[trigger] policy_key()(
            self.policies@[j],
        ) != policy_id by {
            assert(self.policies@[j].policy_id != policy_id);
        }
        None
    }

    /// The position of the list of `farmer`'s policies, if there is one.
    fn find_farmer(&self, farmer: &Address) -> (r: Option<usize>)
        ensures
            match r {
                Some(i) => i < self.farmer_policies@.len() && self.farmer_policies@[i as int].farmer@
                    == farmer@,
                None => !has_key(self.farmer_policies@, farmer_key(), farmer@),
            },
    {
        let n = self.farmer_policies.len();
        let mut i: usize = 0;
        while i < n
            invariant
                n == self.farmer_policies@.len(),
                i <= n,
                forall|j: int| 0 <= j < i ==> #[trigger] self.farmer_policies@[j].farmer@ != farmer@,
            decreases n - i,
        {
            if self.farmer_policies[i].farmer.same_as(farmer) {
                return Some(i);
            }
            i = i + 1;
        }
        assert forall|j: int| 0 <= j < self.farmer_policies@.len() implies #[trigger] farmer_key()(
            self.farmer_policies@[j],
        ) != farmer@ by {
            assert(self.farmer_policies@[j].farmer@ != farmer@);
        }
        None
    }

    /// Sets up the registry with its administrator and the pool that backs its
    /// policies, and starts the id counter at 1; refused if already set up.
    pub fn initialize(&mut self, admin: Address, pool_contract: Address) -> (r: Result<(), Error>)
        requires
            old(self).wf(),
        ensures
            final(self).wf(),
            (final(self)@, r) == old(self)@.initialize(admin@, pool_contract@),
    {
        proof {
            lemma_initialize_inv(self@, admin@, pool_contract@);
        }
        match initialize_step(self.config.is_some(), admin, pool_contract) {
            Ok(setup) => {
                self.config = Some(setup.config);
                self.next_policy_id = Some(setup.next_policy_id);
                Ok(())
            },
            Err(e) => Err(e),
        }
    }

    /// Registers a policy for `farmer` and returns its id. The season must end
    /// after it starts (else `InvalidTimeRange`), the coverage must be positive
    /// (else `InvalidAmount`) and the registry set up (else `NotInitialized`).
    pub fn register_policy(
        &mut self,
        farmer: Address,
        farm_geohash: Vec<u8>,
        crop_type: Vec<u8>,
        season_start: u64,
        season_end: u64,
        coverage_amount: i128,
        rainfall_threshold: u32,
        ndvi_baseline: u32,
    ) -> (r: Result<u64, Error>)
        requires
            old(self).wf(),
            !old(self)@.register_overflows(season_start, season_end, coverage_amount),
        ensures
            final(self).wf(),
            (final(self)@, r) == old(self)@.register(
                farmer@,
                farm_geohash@,
                crop_type@,
                season_start,
                season_end,
                coverage_amount,
                rainfall_threshold,
                ndvi_baseline,
            ),
    {
        let ghost s0 = self@;
        let ghost pols = self.policies@;
        let ghost farms = self.farmer_policies@;
        let ghost farmer_key_v = farmer@;
        let entry = self.find_farmer(&farmer);
        let list = match entry {
            Some(i) => {
                proof {
                    lemma_keyed_map_at(farms, farmer_key(), farmer_value(), i as int);
                }
                Some(copy_ids(&self.farmer_policies[i].policy_ids))
            },
            None => None,
        };
        proof {
            assert(stored_list(list) == s0.policies_of(farmer@));
        }
        let reg = match register_step(
            self.config.is_some(),
            self.next_policy_id,
            list,
            farmer,
            farm_geohash,
            crop_type,
            season_start,
            season_end,
            coverage_amount,
            rainfall_threshold,
            ndvi_baseline,
        ) {
            Ok(reg) => reg,
            Err(e) => {
                return Err(e);
            },
        };
        let policy_id = reg.policy.policy_id;
        proof {
            lemma_register_inv(
                s0,
                farmer_key_v,
                reg.policy.farm_geohash@,
                reg.policy.crop_type@,
                season_start,
                season_end,
                coverage_amount,
                rainfall_threshold,
                ndvi_baseline,
            );
            if has_key(pols, policy_key(), policy_id) {
                let i = choose|i: int| 0 <= i < pols.len() && #[trigger] policy_key()(pols[i]) == policy_id;
                lemma_keyed_map_at(pols, policy_key(), policy_value(), i as int);
            }
        }
        let farmer = reg.policy.farmer.duplicate();
        let ghost pv = reg.policy;
        self.policies.push(reg.policy);
        proof {
            lemma_keyed_map_push(pols, policy_key(), policy_value(), pv);
        }
        let e = FarmerPolicies { farmer, policy_ids: reg.farmer_policies };
        let ghost ev = e;
        match entry {
            Some(i) => {
                self.farmer_policies.set(i, e);
                proof {
                    lemma_keyed_map_update(farms, farmer_key(), farmer_value(), i as int, ev);
                }
            },
            None => {
                self.farmer_policies.push(e);
                proof {
                    lemma_keyed_map_push(farms, farmer_key(), farmer_value(), ev);
                }
            },
        }
        self.next_policy_id = Some(reg.next_policy_id);
        Ok(policy_id)
    }

    /// The policy with id `policy_id`, or `PolicyNotFound`.
    pub fn get_policy(&self, policy_id: u64) -> (r: Result<Policy, Error>)
        requires
            self.wf(),
        ensures
            policy_result_view(r) == self@.get_policy(policy_id),
    {
        let stored = match self.find_policy(policy_id) {
            Some(i) => {
                proof {
                    lemma_keyed_map_at(self.policies@, policy_key(), policy_value(), i as int);
                }
                Some(self.policies[i].duplicate())
            },
            None => None,
        };
        get_policy_step(stored)
    }

    /// The ids of the policies that `farmer` registered, oldest first; empty
    /// for a farmer with none.
    pub fn list_policies_by_farmer(&self, farmer: Address) -> (r: Vec<u64>)
        requires
            self.wf(),
        ensures
            r@ == self@.policies_of(farmer@),
    {
        let stored = match self.find_farmer(&farmer) {
            Some(i) => {
                proof {
                    lemma_keyed_map_at(
                        self.farmer_policies@,
                        farmer_key(),
                        farmer_value(),
                        i as int,
                    );
                }
                Some(copy_ids(&self.farmer_policies[i].policy_ids))
            },
            None => None,
        };
        list_step(stored)
    }

    /// Stores `p` at position `i`, in place of a policy with the same id.
    fn replace_policy_at(&mut self, i: usize, p: Policy)
        requires
            old(self).wf(),
            i < old(self).policies@.len(),
            p.policy_id == old(self).policies@[i as int].policy_id,
            p@ == (PolicyView { state: p.state, ..old(self).policies@[i as int]@ }),
        ensures
            final(self).wf(),
            final(self)@ == old(self)@.with_state(p.policy_id, p.state),
    {
        let ghost s0 = self@;
        let ghost pols = self.policies@;
        let ghost pv = p;
        self.policies.set(i, p);
        proof {
            lemma_keyed_map_at(pols, policy_key(), policy_value(), i as int);
            lemma_keyed_map_update(pols, policy_key(), policy_value(), i as int, pv);
            lemma_with_state_inv(s0, pv.policy_id, pv.state);
            assert(self@.policies =~= s0.with_state(pv.policy_id, pv.state).policies);
        }
    }

    /// Marks an active policy expired once its season has ended, that is when
    /// `current_time` is past its season end. Refused with `PolicyNotFound`,
    /// `PolicyNotActive` or `InvalidTimeRange`, in that order.
    pub fn expire_policy(&mut self, current_time: u64, policy_id: u64) -> (r: Result<(), Error>)
        requires
            old(self).wf(),
        ensures
            final(self).wf(),
            (final(self)@, r) == old(self)@.expire(current_time, policy_id),
    {
        let found = self.find_policy(policy_id);
        let stored = match found {
            Some(i) => Some(&self.policies[i]),
            None => None,
        };
        proof {
            if let Some(i) = found {
                lemma_keyed_map_at(self.policies@, policy_key(), policy_value(), i as int);
            }
        }
        match expire_step(stored, current_time) {
            Ok(p) => {
                let i = found.unwrap();
                self.replace_policy_at(i, p);
                Ok(())
            },
            Err(e) => Err(e),
        }
    }

    /// Sets the state of a policy. Refused with `NotInitialized` before the
    /// registry is set up, and with `PolicyNotFound` for an unknown id.
    /// Any caller may set any state, from any state: no check is made of who
    /// calls, and `Triggered` or `Expired` policies may be set to another state.
    pub fn update_policy_state(&mut self, policy_id: u64, new_state: PolicyState) -> (r: Result<
        (),
        Error,
    >)
        requires
            old(self).wf(),
        ensures
            final(self).wf(),
            (final(self)@, r) == old(self)@.update_state(policy_id, new_state),
    {
        let found = self.find_policy(policy_id);
        let stored = match found {
            Some(i) => Some(&self.policies[i]),
            None => None,
        };
        proof {
            if let Some(i) = found {
                lemma_keyed_map_at(self.policies@, policy_key(), policy_value(), i as int);
            }
        }
        match update_state_step(self.config.is_some(), stored, new_state) {
            Ok(p) => {
                let i = found.unwrap();
                self.replace_policy_at(i, p);
                Ok(())
            },
            Err(e) => Err(e),
        }
    }
}

/// A copy of a list of policy ids.
fn copy_ids(a: &Vec<u64>) -> (r: Vec<u64>)
    ensures
        r@ == a@,
{
    let mut r: Vec<u64> = Vec::new();
    let n = a.len();
    let mut i: usize = 0;
    while i < n
        invariant
            n == a.len(),
            i <= n,
            r@ == a@.subrange(0, i as int),
        decreases n - i,
    {
        r.push(a[i]);
        i = i + 1;
        assert(r@ =~= a@.subrange(0, i as int));
    }
    assert(r@ =~= a@);
    r
}


/// The registry is set up once: a second `initialize` is refused with
/// `AlreadyInitialized` and changes nothing.
pub proof fn law_initialize_once(
    s: PolicyContractView,
    admin: Seq<u8>,
    pool_contract: Seq<u8>,
    admin2: Seq<u8>,
    pool_contract2: Seq<u8>,
)
    ensures
        ({
            let s1 = s.initialize(admin, pool_contract).0;
            s1.initialize(admin2, pool_contract2) == (s1, Err::<(), Error>(Error::AlreadyInitialized))
        }),
{
}

/// A refused request leaves the registry as it was.
pub proof fn law_refusal_changes_nothing(
    s: PolicyContractView,
    farmer: Seq<u8>,
    farm_geohash: Seq<u8>,
    crop_type: Seq<u8>,
    season_start: u64,
    season_end: u64,
    coverage_amount: i128,
    rainfall_threshold: u32,
    ndvi_baseline: u32,
    current_time: u64,
    policy_id: u64,
    new_state: PolicyState,
)
    ensures
        s.register(
            farmer,
            farm_geohash,
            crop_type,
            season_start,
            season_end,
            coverage_amount,
            rainfall_threshold,
            ndvi_baseline,
        ).1 is Err ==> s.register(
            farmer,
            farm_geohash,
            crop_type,
            season_start,
            season_end,
            coverage_amount,
            rainfall_threshold,
            ndvi_baseline,
        ).0 == s,
        s.expire(current_time, policy_id).1 is Err ==> s.expire(current_time, policy_id).0 == s,
        s.update_state(policy_id, new_state).1 is Err ==> s.update_state(policy_id, new_state).0
            == s,
{
}

/// Registration succeeds exactly when the season ends after it starts, the
/// coverage is positive and the registry is set up; then the new policy is
/// found under the returned id, active and with the given terms, the id was
/// not in use before, the next registration gets the following id, and no
/// other policy changes.
pub proof fn law_register_then_get(
    s: PolicyContractView,
    farmer: Seq<u8>,
    farm_geohash: Seq<u8>,
    crop_type: Seq<u8>,
    season_start: u64,
    season_end: u64,
    coverage_amount: i128,
    rainfall_threshold: u32,
    ndvi_baseline: u32,
    other_id: u64,
)
    requires
        s.inv(),
        !s.register_overflows(season_start, season_end, coverage_amount),
    ensures
        ({
            let (t, r) = s.register(
                farmer,
                farm_geohash,
                crop_type,
                season_start,
                season_end,
                coverage_amount,
                rainfall_threshold,
                ndvi_baseline,
            );
            &&& (r is Ok) == (season_start < season_end && coverage_amount > 0 && s.config is Some)
            &&& r matches Ok(id) ==> {
                &&& s.get_policy(id) == Err::<PolicyView, Error>(Error::PolicyNotFound)
                &&& t.get_policy(id) == Ok::<PolicyView, Error>(
                    PolicyView {
                        policy_id: id,
                        farmer,
                        farm_geohash,
                        crop_type,
                        season_start,
                        season_end,
                        coverage_amount,
                        rainfall_threshold,
                        ndvi_baseline,
                        state: PolicyState::Active,
                    },
                )
                &&& t.next_id() == id + 1
                &&& other_id != id ==> t.get_policy(other_id) == s.get_policy(other_id)
            }
        }),
{
}

/// Two registrations that both succeed get consecutive ids.
pub proof fn law_consecutive_ids(
    s: PolicyContractView,
    farmer: Seq<u8>,
    farm_geohash: Seq<u8>,
    crop_type: Seq<u8>,
    season_start: u64,
    season_end: u64,
    coverage_amount: i128,
    rainfall_threshold: u32,
    ndvi_baseline: u32,
    farmer2: Seq<u8>,
    farm_geohash2: Seq<u8>,
    crop_type2: Seq<u8>,
    season_start2: u64,
    season_end2: u64,
    coverage_amount2: i128,
    rainfall_threshold2: u32,
    ndvi_baseline2: u32,
)
    requires
        s.inv(),
        !s.register_overflows(season_start, season_end, coverage_amount),
    ensures
        ({
            let (t, r) = s.register(
                farmer,
                farm_geohash,
                crop_type,
                season_start,
                season_end,
                coverage_amount,
                rainfall_threshold,
                ndvi_baseline,
            );
            let r2 = t.register(
                farmer2,
                farm_geohash2,
                crop_type2,
                season_start2,
                season_end2,
                coverage_amount2,
                rainfall_threshold2,
                ndvi_baseline2,
            ).1;
            r matches Ok(id) ==> (r2 is Ok ==> r2 == Ok::<u64, Error>((id + 1) as u64))
        }),
{
}

/// A farmer's list holds, in increasing (that is, registration) order, the ids
/// of exactly the policies that name that farmer.
pub proof fn law_farmer_listing(s: PolicyContractView, farmer: Seq<u8>, policy_id: u64)
    requires
        s.inv(),
    ensures
        s.policies_of(farmer).contains(policy_id) <==> (s.get_policy(policy_id) matches Ok(p)
            && p.farmer == farmer),
        forall|i: int, j: int|
            0 <= i < j < s.policies_of(farmer).len() ==> #[trigger] s.policies_of(farmer)[i]
                < #[trigger] s.policies_of(farmer)[j],
{
    if s.policies_of(farmer).contains(policy_id) {
        let i = choose|i: int|
            0 <= i < s.policies_of(farmer).len() && s.policies_of(farmer)[i] == policy_id;
        assert(s.policies.dom().contains(s.farmer_policies[farmer][i]));
    }
}

/// A successful registration appends its id to the farmer's list and leaves
/// every other farmer's list as it was.
pub proof fn law_register_appends(
    s: PolicyContractView,
    farmer: Seq<u8>,
    farm_geohash: Seq<u8>,
    crop_type: Seq<u8>,
    season_start: u64,
    season_end: u64,
    coverage_amount: i128,
    rainfall_threshold: u32,
    ndvi_baseline: u32,
    other: Seq<u8>,
)
    ensures
        ({
            let (t, r) = s.register(
                farmer,
                farm_geohash,
                crop_type,
                season_start,
                season_end,
                coverage_amount,
                rainfall_threshold,
                ndvi_baseline,
            );
            &&& r matches Ok(id) ==> t.policies_of(farmer) == s.policies_of(farmer).push(id)
            &&& other != farmer ==> t.policies_of(other) == s.policies_of(other)
        }),
{
}

/// Expiry succeeds exactly for an active policy whose season ended before
/// `current_time`; it sets the state to `Expired`, changes nothing else, and a
/// second expiry of the same policy is refused with `PolicyNotActive`.
pub proof fn law_expire_once(
    s: PolicyContractView,
    current_time: u64,
    policy_id: u64,
    later_time: u64,
)
    requires
        s.inv(),
    ensures
        ({
            let (t, r) = s.expire(current_time, policy_id);
            &&& (r is Ok) == (s.get_policy(policy_id) matches Ok(p) && p.state == PolicyState::Active
                && current_time > p.season_end)
            &&& r is Ok ==> t.get_policy(policy_id) == Ok::<PolicyView, Error>(
                PolicyView { state: PolicyState::Expired, ..s.policies[policy_id] },
            )
            &&& r is Ok ==> t.expire(later_time, policy_id) == (t, Err::<(), Error>(Error::PolicyNotActive))
            &&& r is Ok ==> t.inv()
        }),
{
    if s.expire(current_time, policy_id).1 is Ok {
        lemma_with_state_inv(s, policy_id, PolicyState::Expired);
    }
}

/// Setting a policy's state changes that state alone and keeps the invariant.
pub proof fn law_update_state(
    s: PolicyContractView,
    policy_id: u64,
    new_state: PolicyState,
    other_id: u64,
)
    requires
        s.inv(),
    ensures
        ({
            let (t, r) = s.update_state(policy_id, new_state);
            &&& (r is Ok) == (s.config is Some && s.policies.dom().contains(policy_id))
            &&& r is Ok ==> t.get_policy(policy_id) == Ok::<PolicyView, Error>(
                PolicyView { state: new_state, ..s.policies[policy_id] },
            )
            &&& other_id != policy_id ==> t.get_policy(other_id) == s.get_policy(other_id)
            &&& t.policies_of(s.policies[policy_id].farmer) == s.policies_of(s.policies[policy_id].farmer)
            &&& t.inv()
        }),
{
    if s.update_state(policy_id, new_state).1 is Ok {
        lemma_with_state_inv(s, policy_id, new_state);
    }
}


/// The registry before anything is stored satisfies the invariant; with the
/// invariant lemmas of each operation, so does every state reached from it.
pub proof fn law_empty_inv()
    ensures
        PolicyContractView::empty().inv(),
{
}

/// Every stored policy is stored under its own id, which is at least 1 and
/// below the id counter.
pub proof fn law_stored_ids(s: PolicyContractView, policy_id: u64)
    requires
        s.inv(),
    ensures
        s.get_policy(policy_id) matches Ok(p) ==> {
            &&& p.policy_id == policy_id
            &&& 1 <= policy_id
            &&& s.next_policy_id matches Some(n) && policy_id < n
        },
{
}


/// Every operation of the registry keeps its invariant, so every state reached
/// from the empty registry satisfies it (see `law_empty_inv`).
pub proof fn law_operations_keep_inv(
    s: PolicyContractView,
    admin: Seq<u8>,
    pool_contract: Seq<u8>,
    farmer: Seq<u8>,
    farm_geohash: Seq<u8>,
    crop_type: Seq<u8>,
    season_start: u64,
    season_end: u64,
    coverage_amount: i128,
    rainfall_threshold: u32,
    ndvi_baseline: u32,
    current_time: u64,
    policy_id: u64,
    new_state: PolicyState,
)
    requires
        s.inv(),
    ensures
        s.initialize(admin, pool_contract).0.inv(),
        !s.register_overflows(season_start, season_end, coverage_amount) ==> s.register(
            farmer,
            farm_geohash,
            crop_type,
            season_start,
            season_end,
            coverage_amount,
            rainfall_threshold,
            ndvi_baseline,
        ).0.inv(),
        s.expire(current_time, policy_id).0.inv(),
        s.update_state(policy_id, new_state).0.inv(),
{
    lemma_initialize_inv(s, admin, pool_contract);
    if !s.register_overflows(season_start, season_end, coverage_amount) {
        lemma_register_inv(
            s,
            farmer,
            farm_geohash,
            crop_type,
            season_start,
            season_end,
            coverage_amount,
            rainfall_threshold,
            ndvi_baseline,
        );
    }
    if s.policies.dom().contains(policy_id) {
        lemma_with_state_inv(s, policy_id, PolicyState::Expired);
        lemma_with_state_inv(s, policy_id, new_state);
    }
}


/// An expiry that succeeds returns the stored policy with its state set to
/// `Expired` and every other term as stored; it succeeds exactly for an active
/// policy whose season ended before `current_time`.
pub proof fn law_expiry_keeps_terms(p: PolicyView, current_time: u64)
    ensures
        expiry_outcome(Some(p), current_time) is Ok == (p.state == PolicyState::Active && current_time
            > p.season_end),
        expiry_outcome(Some(p), current_time) matches Ok(q) ==> {
            &&& q.state == PolicyState::Expired
            &&& q.policy_id == p.policy_id
            &&& q.farmer == p.farmer
            &&& q.farm_geohash == p.farm_geohash
            &&& q.crop_type == p.crop_type
            &&& q.season_start == p.season_start
            &&& q.season_end == p.season_end
            &&& q.coverage_amount == p.coverage_amount
            &&& q.rainfall_threshold == p.rainfall_threshold
            &&& q.ndvi_baseline == p.ndvi_baseline
        },
        expiry_outcome(None, current_time) == Err::<PolicyView, Error>(Error::PolicyNotFound),
{
}

/// A state change that succeeds returns the stored policy with its state set
/// to `new_state` and every other term as stored; it succeeds exactly when the
/// registry is set up and the policy is stored.
pub proof fn law_state_update_keeps_terms(initialized: bool, p: PolicyView, new_state: PolicyState)
    ensures
        state_update_outcome(initialized, Some(p), new_state) is Ok == initialized,
        state_update_outcome(initialized, Some(p), new_state) matches Ok(q) ==> {
            &&& q.state == new_state
            &&& q.policy_id == p.policy_id
            &&& q.farmer == p.farmer
            &&& q.farm_geohash == p.farm_geohash
            &&& q.crop_type == p.crop_type
            &&& q.season_start == p.season_start
            &&& q.season_end == p.season_end
            &&& q.coverage_amount == p.coverage_amount
            &&& q.rainfall_threshold == p.rainfall_threshold
            &&& q.ndvi_baseline == p.ndvi_baseline
        },
{
}

/// A stored list of policy ids reads back unchanged, whatever its length, and
/// an absent list reads as empty.
pub proof fn law_stored_list_unchanged(l: Vec<u64>)
    ensures
        stored_list(Some(l)).len() == l@.len(),
        forall|i: int| 0 <= i < l@.len() ==> #[trigger] stored_list(Some(l))[i] == l@[i],
        stored_list(None).len() == 0,
{
}

} // verus!

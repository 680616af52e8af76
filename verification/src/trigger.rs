//! The payout trigger: evaluates a policy's rainfall against its threshold and
//! records, once per policy, that a payout is due.

use vstd::prelude::*;

use crate::address::{copy_bytes, Address};
use crate::keyed::{has_key, keyed_map, lemma_keyed_map_at, lemma_keyed_map_push, unique_keys};

verus! {

/// The payout recorded for a drought: 5000 USDC in units of 10^-7.
pub const DROUGHT_PAYOUT: i128 = 50_000_000_000;

/// The record of a policy's payout being triggered.
#[derive(Clone, Debug, PartialEq, Eq)]
pub struct TriggerEvent {
    pub policy_id: u64,
    /// The ledger time of the evaluation.
    pub triggered_at: u64,
    pub rainfall_value: u32,
    pub payout_amount: i128,
    pub trigger_reason: Vec<u8>,
}

/// A trigger record as a mathematical value.
pub struct TriggerEventView {
    pub policy_id: u64,
    pub triggered_at: u64,
    pub rainfall_value: u32,
    pub payout_amount: i128,
    pub trigger_reason: Seq<u8>,
}

impl View for TriggerEvent {
    type V = TriggerEventView;

    open spec fn view(&self) -> TriggerEventView {
        TriggerEventView {
            policy_id: self.policy_id,
            triggered_at: self.triggered_at,
            rainfall_value: self.rainfall_value,
            payout_amount: self.payout_amount,
            trigger_reason: self.trigger_reason@,
        }
    }
}

impl TriggerEvent {
    /// A copy of this record.
    pub fn duplicate(&self) -> (e: TriggerEvent)
        ensures
            e@ == self@,
    {
        TriggerEvent {
            policy_id: self.policy_id,
            triggered_at: self.triggered_at,
            rainfall_value: self.rainfall_value,
            payout_amount: self.payout_amount,
            trigger_reason: copy_bytes(&self.trigger_reason),
        }
    }
}

/// The trigger's settings: its administrator and the contracts it works with.
#[derive(Clone, Debug, PartialEq, Eq)]
pub struct Config {
    pub admin: Address,
    pub policy_contract: Address,
    pub oracle_contract: Address,
    pub pool_contract: Address,
}

/// The settings as a mathematical value.
pub struct ConfigView {
    pub admin: Seq<u8>,
    pub policy_contract: Seq<u8>,
    pub oracle_contract: Seq<u8>,
    pub pool_contract: Seq<u8>,
}

impl View for Config {
    type V = ConfigView;

    open spec fn view(&self) -> ConfigView {
        ConfigView {
            admin: self.admin@,
            policy_contract: self.policy_contract@,
            oracle_contract: self.oracle_contract@,
            pool_contract: self.pool_contract@,
        }
    }
}

/// Why a request to the trigger was refused.
#[derive(Clone, Copy, Debug, PartialEq, Eq, Structural)]
pub enum Error {
    AlreadyInitialized,
    NotInitialized,
    AlreadyTriggered,
    ThresholdNotMet,
}

/// The stored data of the trigger.
pub struct TriggerContract {
    config: Option<Config>,
    triggered: Vec<TriggerEvent>,
}

/// The trigger's stored data as mathematical values: the settings once set up,
/// and the trigger record of each triggered policy.
#[verifier::ext_equal]
pub struct TriggerContractView {
    pub config: Option<ConfigView>,
    pub triggered: Map<u64, TriggerEventView>,
}

pub open spec fn event_key() -> spec_fn(TriggerEvent) -> u64 {
    |e: TriggerEvent| e.policy_id
}

pub open spec fn event_value() -> spec_fn(TriggerEvent) -> TriggerEventView {
    |e: TriggerEvent| e@
}

pub open spec fn event_result_view(r: Result<TriggerEvent, Error>) -> Result<
    TriggerEventView,
    Error,
> {
    match r {
        Ok(e) => Ok(e@),
        Err(e) => Err(e),
    }
}

/// The reason recorded for a drought payout: the ASCII bytes of `drought_detected`.
pub open spec fn drought_reason() -> Seq<u8> {
    seq![
        100u8, 114, 111, 117, 103, 104, 116, 95, 100, 101, 116, 101, 99, 116, 101, 100,
    ]
}

/// The bytes of `drought_detected`.
fn drought_reason_bytes() -> (r: Vec<u8>)
    ensures
        r@ == drought_reason(),
{
    let r = vec![
        100u8, 114, 111, 117, 103, 104, 116, 95, 100, 101, 116, 101, 99, 116, 101, 100,
    ];
    assert(r@ =~= drought_reason());
    r
}

impl View for TriggerContract {
    type V = TriggerContractView;

    closed spec fn view(&self) -> TriggerContractView {
        TriggerContractView {
            config: match self.config {
                Some(c) => Some(c@),
                None => None,
            },
            triggered: keyed_map(self.triggered@, event_key(), event_value()),
        }
    }
}

impl TriggerContractView {
    /// The trigger before anything was stored.
    pub open spec fn empty() -> Self {
        TriggerContractView { config: None, triggered: Map::empty() }
    }

    /// Setting up the trigger, once.
    pub open spec fn initialize(self, config: ConfigView) -> (Self, Result<(), Error>) {
        if self.config is Some {
            (self, Err(Error::AlreadyInitialized))
        } else {
            (TriggerContractView { config: Some(config), ..self }, Ok(()))
        }
    }

    /// Evaluating a policy at ledger time `current_time`: once set up, a policy
    /// not yet triggered whose rainfall is below the threshold is triggered,
    /// with the drought payout.
    pub open spec fn evaluate(
        self,
        current_time: u64,
        policy_id: u64,
        rainfall: u32,
        threshold: u32,
    ) -> (Self, Result<(), Error>) {
        match evaluation_outcome(
            self.config is Some,
            self.is_triggered(policy_id),
            current_time,
            policy_id,
            rainfall,
            threshold,
        ) {
            Ok(e) => (TriggerContractView { triggered: self.triggered.insert(policy_id, e), ..self }, Ok(())),
            Err(e) => (self, Err(e)),
        }
    }

    /// The trigger record of a policy; a policy that was not triggered gives
    /// `NotInitialized`.
    pub open spec fn trigger_event(self, policy_id: u64) -> Result<TriggerEventView, Error> {
        event_outcome(
            if self.triggered.dom().contains(policy_id) {
                Some(self.triggered[policy_id])
            } else {
                None
            },
        )
    }

    /// Whether a policy was triggered.
    pub open spec fn is_triggered(self, policy_id: u64) -> bool {
        self.triggered.dom().contains(policy_id)
    }

    /// Each record is stored under the id of its policy.
    pub open spec fn inv(self) -> bool {
        forall|id: u64| #[trigger] self.triggered.dom().contains(id) ==> self.triggered[id].policy_id == id
    }
}

/// The decision of setting up the trigger: the settings to store, or
/// `AlreadyInitialized` when it is set up already.
pub fn initialize_step(
    initialized: bool,
    admin: Address,
    policy_contract: Address,
    oracle_contract: Address,
    pool_contract: Address,
) -> (r: Result<Config, Error>)
    ensures
        initialized ==> r == Err::<Config, Error>(Error::AlreadyInitialized),
        !initialized ==> (r matches Ok(c) && c@ == (ConfigView {
            admin: admin@,
            policy_contract: policy_contract@,
            oracle_contract: oracle_contract@,
            pool_contract: pool_contract@,
        })),
{
    if initialized {
        return Err(Error::AlreadyInitialized);
    }
    Ok(Config { admin, policy_contract, oracle_contract, pool_contract })
}

/// What an evaluation comes to: the refusal, or the record to store.
pub open spec fn evaluation_outcome(
    initialized: bool,
    already_triggered: bool,
    current_time: u64,
    policy_id: u64,
    rainfall: u32,
    threshold: u32,
) -> Result<TriggerEventView, Error> {
    if !initialized {
        Err(Error::NotInitialized)
    } else if already_triggered {
        Err(Error::AlreadyTriggered)
    } else if rainfall < threshold {
        Ok(
            TriggerEventView {
                policy_id,
                triggered_at: current_time,
                rainfall_value: rainfall,
                payout_amount: DROUGHT_PAYOUT,
                trigger_reason: drought_reason(),
            },
        )
    } else {
        Err(Error::ThresholdNotMet)
    }
}

/// The decision of evaluating policy `policy_id` at ledger time
/// `current_time`, from whether the trigger is set up and whether the policy
/// was triggered before.
pub fn evaluate_step(
    initialized: bool,
    already_triggered: bool,
    current_time: u64,
    policy_id: u64,
    simulated_rainfall: u32,
    simulated_threshold: u32,
) -> (r: Result<TriggerEvent, Error>)
    ensures
        event_result_view(r) == evaluation_outcome(
            initialized,
            already_triggered,
            current_time,
            policy_id,
            simulated_rainfall,
            simulated_threshold,
        ),
{
    if !initialized {
        return Err(Error::NotInitialized);
    }
    if already_triggered {
        return Err(Error::AlreadyTriggered);
    }
    if simulated_rainfall < simulated_threshold {
        Ok(
            TriggerEvent {
                policy_id,
                triggered_at: current_time,
                rainfall_value: simulated_rainfall,
                payout_amount: DROUGHT_PAYOUT,
                trigger_reason: drought_reason_bytes(),
            },
        )
    } else {
        Err(Error::ThresholdNotMet)
    }
}

/// The stored record, taken by value, read as a value; `None` when there is none.
pub open spec fn owned_event(e: Option<TriggerEvent>) -> Option<TriggerEventView> {
    match e {
        Some(e) => Some(e@),
        None => None,
    }
}

/// What a query for a trigger record comes to: the stored record, or
/// `NotInitialized` when the policy was not triggered.
pub open spec fn event_outcome(stored: Option<TriggerEventView>) -> Result<TriggerEventView, Error> {
    match stored {
        Some(e) => Ok(e),
        None => Err(Error::NotInitialized),
    }
}

/// The answer to a query for a trigger record, from the stored record.
pub fn get_trigger_event_step(stored: Option<TriggerEvent>) -> (r: Result<TriggerEvent, Error>)
    ensures
        event_result_view(r) == event_outcome(owned_event(stored)),
        stored matches Some(e) ==> r == Ok::<TriggerEvent, Error>(e),
        stored is None ==> r == Err::<TriggerEvent, Error>(Error::NotInitialized),
{
    match stored {
        Some(e) => Ok(e),
        None => Err(Error::NotInitialized),
    }
}

impl TriggerContract {
    /// The stored data is consistent: each policy occurs once, under its own id.
    pub closed spec fn wf(&self) -> bool {
        &&& unique_keys(self.triggered@, event_key())
        &&& self@.inv()
    }

    /// A consistent trigger satisfies the invariant on its view.
    pub proof fn lemma_wf_inv(&self)
        requires
            self.wf(),
        ensures
            self@.inv(),
    {
    }

    /// The trigger before anything was stored.
    pub fn new() -> (c: TriggerContract)
        ensures
            c.wf(),
            c@ == TriggerContractView::empty(),
    {
        let c = TriggerContract { config: None, triggered: Vec::new() };
        assert(c@.triggered =~= Map::empty());
        c
    }

    /// The position of the record of `policy_id`, if there is one.
    fn find_event(&self, policy_id: u64) -> (r: Option<usize>)
        ensures
            match r {
                Some(i) => i < self.triggered@.len() && self.triggered@[i as int].policy_id
                    == policy_id,
                None => !has_key(self.triggered@, event_key(), policy_id),
            },
    {
        let n = self.triggered.len();
        let mut i: usize = 0;
        while i < n
            invariant
                n == self.triggered@.len(),
                i <= n,
                forall|j: int| 0 <= j < i ==> #[trigger] self.triggered@[j].policy_id != policy_id,
            decreases n - i,
        {
            if self.triggered[i].policy_id == policy_id {
                return Some(i);
            }
            i = i + 1;
        }
        assert forall|j: int| 0 <= j < self.triggered@.len() implies #[trigger] event_key()(
            self.triggered@[j],
        ) != policy_id by {
            assert(self.triggered@[j].policy_id != policy_id);
        }
        None
    }

    /// Sets up the trigger with its administrator and the policy, oracle and
    /// pool contracts; refused if already set up.
    pub fn initialize(
        &mut self,
        admin: Address,
        policy_contract: Address,
        oracle_contract: Address,
        pool_contract: Address,
    ) -> (r: Result<(), Error>)
        requires
            old(self).wf(),
        ensures
            final(self).wf(),
            (final(self)@, r) == old(self)@.initialize(
                ConfigView {
                    admin: admin@,
                    policy_contract: policy_contract@,
                    oracle_contract: oracle_contract@,
                    pool_contract: pool_contract@,
                },
            ),
    {
        match initialize_step(
            self.config.is_some(),
            admin,
            policy_contract,
            oracle_contract,
            pool_contract,
        ) {
            Ok(config) => {
                self.config = Some(config);
                Ok(())
            },
            Err(e) => Err(e),
        }
    }

    /// Evaluates policy `policy_id` at ledger time `current_time`: when the
    /// trigger is set up (else `NotInitialized`), the policy was not triggered
    /// before (else `AlreadyTriggered`) and `simulated_rainfall` is below
    /// `simulated_threshold` (else `ThresholdNotMet`), records a drought payout.
    pub fn evaluate_policy(
        &mut self,
        current_time: u64,
        policy_id: u64,
        simulated_rainfall: u32,
        simulated_threshold: u32,
    ) -> (r: Result<(), Error>)
        requires
            old(self).wf(),
        ensures
            final(self).wf(),
            (final(self)@, r) == old(self)@.evaluate(
                current_time,
                policy_id,
                simulated_rainfall,
                simulated_threshold,
            ),
    {
        let ghost evs = self.triggered@;
        let found = self.find_event(policy_id);
        proof {
            if let Some(i) = found {
                lemma_keyed_map_at(evs, event_key(), event_value(), i as int);
            }
        }
        match evaluate_step(
            self.config.is_some(),
            found.is_some(),
            current_time,
            policy_id,
            simulated_rainfall,
            simulated_threshold,
        ) {
            Ok(event) => {
                let ghost ev = event;
                self.triggered.push(event);
                proof {
                    lemma_keyed_map_push(evs, event_key(), event_value(), ev);
                }
                Ok(())
            },
            Err(e) => Err(e),
        }
    }

    /// The trigger record of `policy_id`; a policy that was not triggered gives
    /// `NotInitialized`.
    pub fn get_trigger_event(&self, policy_id: u64) -> (r: Result<TriggerEvent, Error>)
        requires
            self.wf(),
        ensures
            event_result_view(r) == self@.trigger_event(policy_id),
    {
        let stored = match self.find_event(policy_id) {
            Some(i) => {
                proof {
                    lemma_keyed_map_at(self.triggered@, event_key(), event_value(), i as int);
                }
                Some(self.triggered[i].duplicate())
            },
            None => None,
        };
        get_trigger_event_step(stored)
    }

    /// Whether policy `policy_id` was triggered.
    pub fn is_triggered(&self, policy_id: u64) -> (r: bool)
        requires
            self.wf(),
        ensures
            r == self@.is_triggered(policy_id),
    {
        match self.find_event(policy_id) {
            Some(i) => {
                proof {
                    lemma_keyed_map_at(self.triggered@, event_key(), event_value(), i as int);
                }
                true
            },
            None => false,
        }
    }
}

/// The trigger is set up once: a second `initialize` is refused with
/// `AlreadyInitialized` and changes nothing.
pub proof fn law_initialize_once(s: TriggerContractView, config: ConfigView, config2: ConfigView)
    ensures
        ({
            let s1 = s.initialize(config).0;
            s1.initialize(config2) == (s1, Err::<(), Error>(Error::AlreadyInitialized))
        }),
{
}

/// A policy is triggered at most once: after a successful evaluation the policy
/// reads as triggered, its record holds the evaluation's time, rainfall and the
/// drought payout, and every later evaluation of it is refused with
/// `AlreadyTriggered` and changes nothing.
pub proof fn law_trigger_once(
    s: TriggerContractView,
    current_time: u64,
    policy_id: u64,
    rainfall: u32,
    threshold: u32,
    later_time: u64,
    later_rainfall: u32,
    later_threshold: u32,
)
    ensures
        ({
            let (t, r) = s.evaluate(current_time, policy_id, rainfall, threshold);
            &&& (r is Ok) == (s.config is Some && !s.is_triggered(policy_id) && rainfall < threshold)
            &&& r is Ok ==> {
                &&& t.is_triggered(policy_id)
                &&& t.trigger_event(policy_id) == Ok::<TriggerEventView, Error>(
                    TriggerEventView {
                        policy_id,
                        triggered_at: current_time,
                        rainfall_value: rainfall,
                        payout_amount: DROUGHT_PAYOUT,
                        trigger_reason: drought_reason(),
                    },
                )
                &&& t.evaluate(later_time, policy_id, later_rainfall, later_threshold) == (t, Err::<
                    (),
                    Error,
                >(Error::AlreadyTriggered))
            }
            &&& r is Err ==> t == s
        }),
{
}

/// Evaluation never clears a trigger, nor touches other policies' records.
pub proof fn law_evaluate_keeps_records(
    s: TriggerContractView,
    current_time: u64,
    policy_id: u64,
    rainfall: u32,
    threshold: u32,
    other_id: u64,
)
    requires
        s.inv(),
    ensures
        ({
            let t = s.evaluate(current_time, policy_id, rainfall, threshold).0;
            &&& s.is_triggered(other_id) ==> t.is_triggered(other_id)
            &&& other_id != policy_id ==> t.trigger_event(other_id) == s.trigger_event(other_id)
            &&& t.inv()
        }),
{
}

/// A policy reads as triggered exactly when it has a trigger record.
pub proof fn law_triggered_iff_record(s: TriggerContractView, policy_id: u64)
    ensures
        s.is_triggered(policy_id) == (s.trigger_event(policy_id) is Ok),
{
}


/// A query for a trigger record answers with the stored record itself,
/// whatever its rainfall, time or payout, and with `NotInitialized` exactly
/// when nothing is stored.
pub proof fn law_event_answer_is_stored(e: TriggerEventView)
    ensures
        event_outcome(Some(e)) matches Ok(f) && f.policy_id == e.policy_id && f.triggered_at
            == e.triggered_at && f.rainfall_value == e.rainfall_value && f.payout_amount
            == e.payout_amount && f.trigger_reason == e.trigger_reason,
        event_outcome(None) == Err::<TriggerEventView, Error>(Error::NotInitialized),
{
}

} // verus!

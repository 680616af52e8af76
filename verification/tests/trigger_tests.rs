use ceres::address::Address;
use ceres::trigger::{
    evaluate_step, get_trigger_event_step, initialize_step, Error, TriggerContract, DROUGHT_PAYOUT,
};

fn addr(s: &str) -> Address {
    Address::new(s.as_bytes().to_vec())
}

fn set_up() -> TriggerContract {
    let mut t = TriggerContract::new();
    t.initialize(addr("GADMIN"), addr("CPOLICY"), addr("CORACLE"), addr("CPOOL")).unwrap();
    t
}

#[test]
fn test_trigger_double_trigger_prevention() {
    let mut trigger_client = set_up();
    let policy_id = 1;

    // Rainfall 150 against the policy's threshold of 200, at ledger time 1500000.
    trigger_client.evaluate_policy(1500000, policy_id, 150, 200).unwrap();

    let result = trigger_client.evaluate_policy(1500000, policy_id, 150, 200);
    assert!(result.is_err());
}

#[test]
fn drought_records_the_payout() {
    let mut t = set_up();
    assert!(!t.is_triggered(7));
    assert_eq!(t.get_trigger_event(7), Err(Error::NotInitialized));
    assert_eq!(t.evaluate_policy(1500000, 7, 150, 200), Ok(()));
    assert!(t.is_triggered(7));
    let e = t.get_trigger_event(7).unwrap();
    assert_eq!(e.policy_id, 7);
    assert_eq!(e.triggered_at, 1500000);
    assert_eq!(e.rainfall_value, 150);
    assert_eq!(e.payout_amount, 50_000_000_000);
    assert_eq!(DROUGHT_PAYOUT, 50_000_000_000);
    assert_eq!(e.trigger_reason, b"drought_detected".to_vec());
    assert!(!t.is_triggered(8));
}

#[test]
fn evaluate_refusals() {
    let mut fresh = TriggerContract::new();
    assert_eq!(fresh.evaluate_policy(1, 1, 0, 200), Err(Error::NotInitialized));
    assert_eq!(
        fresh.initialize(addr("GA"), addr("CP"), addr("CO"), addr("CL")),
        Ok(())
    );
    assert_eq!(
        fresh.initialize(addr("GA"), addr("CP"), addr("CO"), addr("CL")),
        Err(Error::AlreadyInitialized)
    );

    let mut t = set_up();
    // Rainfall at the threshold is not a drought.
    assert_eq!(t.evaluate_policy(1, 3, 200, 200), Err(Error::ThresholdNotMet));
    assert_eq!(t.evaluate_policy(1, 3, 250, 200), Err(Error::ThresholdNotMet));
    assert!(!t.is_triggered(3));
    assert_eq!(t.evaluate_policy(2, 3, 199, 200), Ok(()));
    // Once triggered, every later evaluation is refused and the record stays.
    assert_eq!(t.evaluate_policy(9, 3, 0, 200), Err(Error::AlreadyTriggered));
    assert_eq!(t.evaluate_policy(9, 3, 500, 200), Err(Error::AlreadyTriggered));
    assert_eq!(t.get_trigger_event(3).unwrap().triggered_at, 2);
    assert_eq!(t.get_trigger_event(3).unwrap().rainfall_value, 199);
}

#[test]
fn trigger_steps() {
    let e = evaluate_step(true, false, 77, 4, 10, 11).unwrap();
    assert_eq!(e.policy_id, 4);
    assert_eq!(e.triggered_at, 77);
    assert_eq!(e.rainfall_value, 10);
    assert_eq!(e.payout_amount, DROUGHT_PAYOUT);
    assert_eq!(e.trigger_reason, b"drought_detected".to_vec());
    assert_eq!(evaluate_step(false, false, 77, 4, 10, 11), Err(Error::NotInitialized));
    // Set-up is checked before the earlier trigger, which is checked before rainfall.
    assert_eq!(evaluate_step(false, true, 77, 4, 99, 11), Err(Error::NotInitialized));
    assert_eq!(evaluate_step(true, true, 77, 4, 10, 11), Err(Error::AlreadyTriggered));
    assert_eq!(evaluate_step(true, false, 77, 4, 11, 11), Err(Error::ThresholdNotMet));
    let c = initialize_step(false, addr("GA"), addr("CP"), addr("CO"), addr("CL")).unwrap();
    assert_eq!(c.policy_contract, addr("CP"));
    assert_eq!(c.oracle_contract, addr("CO"));
    assert_eq!(c.pool_contract, addr("CL"));
    assert_eq!(
        initialize_step(true, addr("GA"), addr("CP"), addr("CO"), addr("CL")),
        Err(Error::AlreadyInitialized)
    );
}

#[test]
fn trigger_event_lookup_step() {
    let e = evaluate_step(true, false, 8, 2, 10, 20).unwrap();
    assert_eq!(get_trigger_event_step(Some(e.clone())), Ok(e));
    assert_eq!(get_trigger_event_step(None), Err(Error::NotInitialized));
}

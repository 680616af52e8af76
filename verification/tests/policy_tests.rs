use ceres::address::Address;
use ceres::policy::{
    expire_step, get_policy_step, initialize_step, list_step, register_step, registration_overflows,
    update_state_step, Error, PolicyContract, PolicyState,
};

fn addr(s: &str) -> Address {
    Address::new(s.as_bytes().to_vec())
}

fn bytes(s: &str) -> Vec<u8> {
    s.as_bytes().to_vec()
}

fn set_up() -> (PolicyContract, Address) {
    let mut c = PolicyContract::new();
    let admin = addr("GADMIN");
    let pool = addr("CPOOL");
    c.initialize(admin, pool).unwrap();
    (c, addr("GFARMER"))
}

#[test]
fn test_policy_registration() {
    let (mut policy_client, farmer) = set_up();

    let policy_id = policy_client
        .register_policy(
            farmer.clone(),
            bytes("9q5ct"),
            bytes("maize"),
            1000000,
            2000000,
            10_000,
            200,
            7000,
        )
        .unwrap();

    assert_eq!(policy_id, 1);

    let policy = policy_client.get_policy(policy_id).unwrap();
    assert_eq!(policy.farmer, farmer);
    assert_eq!(policy.coverage_amount, 10_000);
    assert_eq!(policy.state, PolicyState::Active);
}

#[test]
fn test_policy_list_by_farmer() {
    let (mut policy_client, farmer) = set_up();

    policy_client
        .register_policy(
            farmer.clone(),
            bytes("9q5ct"),
            bytes("maize"),
            1000000,
            2000000,
            5_000,
            200,
            7000,
        )
        .unwrap();

    policy_client
        .register_policy(
            farmer.clone(),
            bytes("9q5cu"),
            bytes("wheat"),
            1000000,
            2000000,
            5_000,
            180,
            6500,
        )
        .unwrap();

    let policies = policy_client.list_policies_by_farmer(farmer);
    assert_eq!(policies.len(), 2);
}

#[test]
fn test_policy_expiration() {
    let (mut policy_client, farmer) = set_up();

    let policy_id = policy_client
        .register_policy(
            farmer,
            bytes("9q5ct"),
            bytes("maize"),
            1000000,
            2000000,
            10_000,
            200,
            7000,
        )
        .unwrap();

    // The ledger time is 2500000, after the season end.
    policy_client.expire_policy(2500000, policy_id).unwrap();

    let policy = policy_client.get_policy(policy_id).unwrap();
    assert_eq!(policy.state, PolicyState::Expired);
}

#[test]
fn policy_initialize_twice_is_refused() {
    let mut c = PolicyContract::new();
    assert_eq!(c.initialize(addr("GA"), addr("CP")), Ok(()));
    assert_eq!(c.initialize(addr("GB"), addr("CQ")), Err(Error::AlreadyInitialized));
    // The first settings stay: registration still starts at id 1.
    let id = c
        .register_policy(addr("GF"), bytes("g"), bytes("c"), 1, 2, 1, 0, 0)
        .unwrap();
    assert_eq!(id, 1);
}

#[test]
fn register_before_initialize_is_refused() {
    let mut c = PolicyContract::new();
    let r = c.register_policy(addr("GF"), bytes("g"), bytes("c"), 1, 2, 1, 0, 0);
    assert_eq!(r, Err(Error::NotInitialized));
    assert_eq!(c.list_policies_by_farmer(addr("GF")), Vec::<u64>::new());
}

#[test]
fn register_checks_in_order() {
    let mut c = PolicyContract::new();
    // Time range is checked before amount and set-up.
    assert_eq!(
        c.register_policy(addr("GF"), bytes("g"), bytes("c"), 5, 5, 0, 0, 0),
        Err(Error::InvalidTimeRange)
    );
    assert_eq!(
        c.register_policy(addr("GF"), bytes("g"), bytes("c"), 6, 5, 10, 0, 0),
        Err(Error::InvalidTimeRange)
    );
    // Amount is checked before set-up.
    assert_eq!(
        c.register_policy(addr("GF"), bytes("g"), bytes("c"), 4, 5, 0, 0, 0),
        Err(Error::InvalidAmount)
    );
    assert_eq!(
        c.register_policy(addr("GF"), bytes("g"), bytes("c"), 4, 5, -3, 0, 0),
        Err(Error::InvalidAmount)
    );
    assert_eq!(
        c.register_policy(addr("GF"), bytes("g"), bytes("c"), 4, 5, 1, 0, 0),
        Err(Error::NotInitialized)
    );
}

#[test]
fn register_then_get_gives_all_terms() {
    let (mut c, farmer) = set_up();
    let id = c
        .register_policy(farmer.clone(), bytes("s00tw"), bytes("sorghum"), 10, 20, 777, 150, 6000)
        .unwrap();
    let p = c.get_policy(id).unwrap();
    assert_eq!(p.policy_id, id);
    assert_eq!(p.farmer, farmer);
    assert_eq!(p.farm_geohash, bytes("s00tw"));
    assert_eq!(p.crop_type, bytes("sorghum"));
    assert_eq!(p.season_start, 10);
    assert_eq!(p.season_end, 20);
    assert_eq!(p.coverage_amount, 777);
    assert_eq!(p.rainfall_threshold, 150);
    assert_eq!(p.ndvi_baseline, 6000);
    assert_eq!(p.state, PolicyState::Active);
    assert_eq!(c.get_policy(id + 1), Err(Error::PolicyNotFound));
    assert_eq!(c.get_policy(0), Err(Error::PolicyNotFound));
}

#[test]
fn ids_are_consecutive_and_lists_follow_farmers() {
    let (mut c, _) = set_up();
    let a = addr("GALICE");
    let b = addr("GBOB");
    let i1 = c.register_policy(a.clone(), bytes("x"), bytes("m"), 1, 2, 1, 0, 0).unwrap();
    let i2 = c.register_policy(b.clone(), bytes("y"), bytes("m"), 1, 2, 1, 0, 0).unwrap();
    let i3 = c.register_policy(a.clone(), bytes("z"), bytes("m"), 1, 2, 1, 0, 0).unwrap();
    assert_eq!((i1, i2, i3), (1, 2, 3));
    assert_eq!(c.list_policies_by_farmer(a.clone()), vec![1, 3]);
    assert_eq!(c.list_policies_by_farmer(b.clone()), vec![2]);
    assert_eq!(c.list_policies_by_farmer(addr("GCAROL")), Vec::<u64>::new());
    for id in c.list_policies_by_farmer(a.clone()) {
        assert_eq!(c.get_policy(id).unwrap().farmer, a);
    }
    // A refused registration leaves the lists and the counter alone.
    assert_eq!(
        c.register_policy(a.clone(), bytes("z"), bytes("m"), 2, 1, 1, 0, 0),
        Err(Error::InvalidTimeRange)
    );
    assert_eq!(c.list_policies_by_farmer(a.clone()), vec![1, 3]);
    assert_eq!(c.register_policy(b, bytes("w"), bytes("m"), 1, 2, 1, 0, 0), Ok(4));
}

#[test]
fn expire_refusals() {
    let (mut c, farmer) = set_up();
    let id = c
        .register_policy(farmer, bytes("9q5ct"), bytes("maize"), 1000000, 2000000, 10_000, 200, 7000)
        .unwrap();
    assert_eq!(c.expire_policy(2500000, id + 1), Err(Error::PolicyNotFound));
    // At the season end itself the season has not passed yet.
    assert_eq!(c.expire_policy(2000000, id), Err(Error::InvalidTimeRange));
    assert_eq!(c.expire_policy(1500000, id), Err(Error::InvalidTimeRange));
    assert_eq!(c.get_policy(id).unwrap().state, PolicyState::Active);
    assert_eq!(c.expire_policy(2000001, id), Ok(()));
    assert_eq!(c.get_policy(id).unwrap().state, PolicyState::Expired);
    // A second expiry is refused, whatever the time.
    assert_eq!(c.expire_policy(9000000, id), Err(Error::PolicyNotActive));
}

#[test]
fn update_state_sets_only_that_policy() {
    let mut fresh = PolicyContract::new();
    assert_eq!(fresh.update_policy_state(1, PolicyState::Triggered), Err(Error::NotInitialized));

    let (mut c, farmer) = set_up();
    assert_eq!(c.update_policy_state(1, PolicyState::Triggered), Err(Error::PolicyNotFound));
    let i1 = c.register_policy(farmer.clone(), bytes("a"), bytes("m"), 1, 5, 1, 0, 0).unwrap();
    let i2 = c.register_policy(farmer.clone(), bytes("b"), bytes("m"), 1, 5, 1, 0, 0).unwrap();
    assert_eq!(c.update_policy_state(i1, PolicyState::Triggered), Ok(()));
    assert_eq!(c.get_policy(i1).unwrap().state, PolicyState::Triggered);
    assert_eq!(c.get_policy(i1).unwrap().farm_geohash, bytes("a"));
    assert_eq!(c.get_policy(i2).unwrap().state, PolicyState::Active);
    // A triggered policy can no longer expire.
    assert_eq!(c.expire_policy(10, i1), Err(Error::PolicyNotActive));
    // Any state may be set, also back to active.
    assert_eq!(c.update_policy_state(i1, PolicyState::Active), Ok(()));
    assert_eq!(c.expire_policy(10, i1), Ok(()));
    assert_eq!(c.list_policies_by_farmer(farmer), vec![i1, i2]);
}

#[test]
fn register_step_writes_policy_list_and_counter() {
    let reg = register_step(
        true,
        Some(5),
        Some(vec![2, 4]),
        addr("GF"),
        bytes("9q5ct"),
        bytes("maize"),
        1000000,
        2000000,
        10_000,
        200,
        7000,
    )
    .ok()
    .unwrap();
    assert_eq!(reg.policy.policy_id, 5);
    assert_eq!(reg.policy.farmer, addr("GF"));
    assert_eq!(reg.policy.state, PolicyState::Active);
    assert_eq!(reg.farmer_policies, vec![2, 4, 5]);
    assert_eq!(reg.next_policy_id, 6);

    // An absent counter starts at 1, an absent list starts empty.
    let first = register_step(true, None, None, addr("GF"), bytes("g"), bytes("c"), 1, 2, 1, 0, 0)
        .ok()
        .unwrap();
    assert_eq!(first.policy.policy_id, 1);
    assert_eq!(first.farmer_policies, vec![1]);
    assert_eq!(first.next_policy_id, 2);

    assert!(matches!(
        register_step(false, Some(1), None, addr("GF"), bytes("g"), bytes("c"), 1, 2, 1, 0, 0),
        Err(Error::NotInitialized)
    ));
    assert!(matches!(
        register_step(true, Some(1), None, addr("GF"), bytes("g"), bytes("c"), 3, 2, 1, 0, 0),
        Err(Error::InvalidTimeRange)
    ));
    assert!(matches!(
        register_step(true, Some(1), None, addr("GF"), bytes("g"), bytes("c"), 1, 2, 0, 0, 0),
        Err(Error::InvalidAmount)
    ));
}

#[test]
fn counter_overflow_is_detected() {
    assert!(registration_overflows(true, Some(u64::MAX), 1, 2, 1));
    assert!(!registration_overflows(true, Some(u64::MAX - 1), 1, 2, 1));
    // A refused registration never reaches the counter.
    assert!(!registration_overflows(false, Some(u64::MAX), 1, 2, 1));
    assert!(!registration_overflows(true, Some(u64::MAX), 2, 2, 1));
    assert!(!registration_overflows(true, Some(u64::MAX), 1, 2, 0));
    assert!(!registration_overflows(true, None, 1, 2, 1));
}

#[test]
fn expire_and_update_steps() {
    let (mut c, farmer) = set_up();
    let id = c
        .register_policy(farmer, bytes("9q5ct"), bytes("maize"), 1000000, 2000000, 10_000, 200, 7000)
        .unwrap();
    let p = c.get_policy(id).unwrap();

    assert_eq!(expire_step(None, 5), Err(Error::PolicyNotFound));
    assert_eq!(expire_step(Some(&p), 2000000), Err(Error::InvalidTimeRange));
    let q = expire_step(Some(&p), 2000001).unwrap();
    assert_eq!(q.state, PolicyState::Expired);
    assert_eq!(q.policy_id, p.policy_id);
    assert_eq!(q.crop_type, p.crop_type);
    assert_eq!(expire_step(Some(&q), 2000001), Err(Error::PolicyNotActive));

    assert_eq!(update_state_step(false, Some(&p), PolicyState::Triggered), Err(Error::NotInitialized));
    assert_eq!(update_state_step(true, None, PolicyState::Triggered), Err(Error::PolicyNotFound));
    let t = update_state_step(true, Some(&p), PolicyState::Triggered).unwrap();
    assert_eq!(t.state, PolicyState::Triggered);
    assert_eq!(t.farm_geohash, p.farm_geohash);

    let setup = initialize_step(false, addr("GA"), addr("CP")).ok().unwrap();
    assert_eq!(setup.config.admin, addr("GA"));
    assert_eq!(setup.config.pool_contract, addr("CP"));
    assert_eq!(setup.next_policy_id, 1);
    assert!(matches!(
        initialize_step(true, addr("GA"), addr("CP")),
        Err(Error::AlreadyInitialized)
    ));
}

#[test]
fn addresses_compare_by_strkey() {
    let a = addr("GABC");
    assert!(a.same_as(&addr("GABC")));
    assert!(!a.same_as(&addr("GABD")));
    assert!(!a.same_as(&addr("GAB")));
    assert_eq!(a.duplicate(), a);
}

#[test]
fn lookup_and_list_steps() {
    let (mut c, farmer) = set_up();
    let id = c
        .register_policy(farmer, bytes("9q5ct"), bytes("maize"), 1, 2, 3, 4, 5)
        .unwrap();
    let p = c.get_policy(id).unwrap();
    assert_eq!(get_policy_step(Some(p.clone())), Ok(p));
    assert_eq!(get_policy_step(None), Err(Error::PolicyNotFound));
    assert_eq!(list_step(Some(vec![1, 4, 9])), vec![1, 4, 9]);
    assert_eq!(list_step(None), Vec::<u64>::new());
}

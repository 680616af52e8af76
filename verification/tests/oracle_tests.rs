use ceres::address::Address;
use ceres::oracle::{
    get_latest_step, initialize_step, submit_step, Error, OracleContract, ReadingType,
};

fn bytes(s: &str) -> Vec<u8> {
    s.as_bytes().to_vec()
}

#[test]
fn test_oracle_submit_reading() {
    let mut oracle_client = OracleContract::new();
    let admin = Address::new(bytes("GADMIN"));
    oracle_client.initialize(admin).unwrap();

    let geo_cell = bytes("9q5ct");
    // The ledger time is 1000000.
    oracle_client
        .submit_reading(1000000, geo_cell, ReadingType::Rainfall, 250)
        .unwrap();
}

#[test]
fn oracle_initialize_twice_is_refused() {
    let mut o = OracleContract::new();
    assert_eq!(o.initialize(Address::new(bytes("GA"))), Ok(()));
    assert_eq!(o.initialize(Address::new(bytes("GB"))), Err(Error::AlreadyInitialized));
}

#[test]
fn submit_before_initialize_is_refused() {
    let mut o = OracleContract::new();
    assert_eq!(
        o.submit_reading(5, bytes("9q5ct"), ReadingType::NDVI, 7000),
        Err(Error::NotInitialized)
    );
    assert_eq!(o.get_latest(bytes("9q5ct"), ReadingType::NDVI), Err(Error::NoReadingsAvailable));
}

#[test]
fn latest_reading_is_the_last_submitted() {
    let mut o = OracleContract::new();
    o.initialize(Address::new(bytes("GA"))).unwrap();
    assert_eq!(o.get_latest(bytes("9q5ct"), ReadingType::Rainfall), Err(Error::NoReadingsAvailable));
    o.submit_reading(999000, bytes("9q5ct"), ReadingType::Rainfall, 100).unwrap();
    o.submit_reading(999500, bytes("9q5ct"), ReadingType::Rainfall, 250).unwrap();
    o.submit_reading(1000000, bytes("9q5ct"), ReadingType::Rainfall, 300).unwrap();
    o.submit_reading(1000001, bytes("9q5ct"), ReadingType::NDVI, 7500).unwrap();
    o.submit_reading(1000002, bytes("9q5cu"), ReadingType::Rainfall, 40).unwrap();

    let r = o.get_latest(bytes("9q5ct"), ReadingType::Rainfall).unwrap();
    assert_eq!(r.geo_cell, bytes("9q5ct"));
    assert_eq!(r.reading_type, ReadingType::Rainfall);
    assert_eq!(r.value, 300);
    assert_eq!(r.timestamp, 1000000);

    let n = o.get_latest(bytes("9q5ct"), ReadingType::NDVI).unwrap();
    assert_eq!((n.value, n.timestamp), (7500, 1000001));
    let other = o.get_latest(bytes("9q5cu"), ReadingType::Rainfall).unwrap();
    assert_eq!((other.value, other.timestamp), (40, 1000002));
    assert_eq!(
        o.get_latest(bytes("9q5ct"), ReadingType::SoilMoisture),
        Err(Error::NoReadingsAvailable)
    );
    // A cell whose name extends another's is a different cell.
    assert_eq!(o.get_latest(bytes("9q5c"), ReadingType::Rainfall), Err(Error::NoReadingsAvailable));
}

#[test]
fn oracle_steps() {
    let r = submit_step(true, 42, bytes("w21z7"), ReadingType::SoilMoisture, 31).unwrap();
    assert_eq!(r.geo_cell, bytes("w21z7"));
    assert_eq!(r.reading_type, ReadingType::SoilMoisture);
    assert_eq!((r.value, r.timestamp), (31, 42));
    assert_eq!(
        submit_step(false, 42, bytes("w21z7"), ReadingType::SoilMoisture, 31),
        Err(Error::NotInitialized)
    );
    assert_eq!(
        initialize_step(false, Address::new(bytes("GA"))).unwrap().admin,
        Address::new(bytes("GA"))
    );
    assert_eq!(
        initialize_step(true, Address::new(bytes("GA"))),
        Err(Error::AlreadyInitialized)
    );
}

#[test]
fn latest_lookup_step() {
    let r = submit_step(true, 3, bytes("9q5ct"), ReadingType::NDVI, 4500).unwrap();
    assert_eq!(get_latest_step(Some(r.clone())), Ok(r));
    assert_eq!(get_latest_step(None), Err(Error::NoReadingsAvailable));
}

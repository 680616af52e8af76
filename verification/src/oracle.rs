//! The weather oracle: readings of rainfall, vegetation index and soil
//! moisture, the latest one kept per map cell and kind.

use vstd::prelude::*;

use crate::address::{bytes_equal, copy_bytes, Address};
use crate::keyed::{has_key, keyed_map, lemma_keyed_map_at, lemma_keyed_map_push, lemma_keyed_map_update, unique_keys};

verus! {

/// What a reading measures.
#[derive(Clone, Copy, Debug, PartialEq, Eq, Structural)]
pub enum ReadingType {
    /// Rainfall in millimetres.
    Rainfall,
    /// Vegetation index, scaled by 10000.
    NDVI,
    /// Soil moisture in percent.
    SoilMoisture,
}

/// Why a request to the oracle was refused.
#[derive(Clone, Copy, Debug, PartialEq, Eq, Structural)]
pub enum Error {
    AlreadyInitialized,
    NotInitialized,
    NoReadingsAvailable,
}

/// The latest reading of one kind for one map cell.
#[derive(Clone, Debug, PartialEq, Eq)]
pub struct LatestReading {
    /// The geohash of the cell.
    pub geo_cell: Vec<u8>,
    pub reading_type: ReadingType,
    pub value: u32,
    /// The ledger time at which the reading was submitted.
    pub timestamp: u64,
}

/// A reading as a mathematical value.
pub struct LatestReadingView {
    pub geo_cell: Seq<u8>,
    pub reading_type: ReadingType,
    pub value: u32,
    pub timestamp: u64,
}

impl View for LatestReading {
    type V = LatestReadingView;

    open spec fn view(&self) -> LatestReadingView {
        LatestReadingView {
            geo_cell: self.geo_cell@,
            reading_type: self.reading_type,
            value: self.value,
            timestamp: self.timestamp,
        }
    }
}

impl LatestReading {
    /// A copy of this reading.
    pub fn duplicate(&self) -> (r: LatestReading)
        ensures
            r@ == self@,
    {
        LatestReading {
            geo_cell: copy_bytes(&self.geo_cell),
            reading_type: self.reading_type,
            value: self.value,
            timestamp: self.timestamp,
        }
    }
}

/// The oracle's settings: who administers it.
#[derive(Clone, Debug, PartialEq, Eq)]
pub struct Config {
    pub admin: Address,
}

/// The stored data of the oracle.
pub struct OracleContract {
    config: Option<Config>,
    readings: Vec<LatestReading>,
}

/// The oracle's stored data as mathematical values: the administrator once set
/// up, and the latest reading for each cell and kind.
#[verifier::ext_equal]
pub struct OracleContractView {
    pub admin: Option<Seq<u8>>,
    pub readings: Map<(Seq<u8>, ReadingType), LatestReadingView>,
}

pub open spec fn reading_key() -> spec_fn(LatestReading) -> (Seq<u8>, ReadingType) {
    |r: LatestReading| (r.geo_cell@, r.reading_type)
}

pub open spec fn reading_value() -> spec_fn(LatestReading) -> LatestReadingView {
    |r: LatestReading| r@
}

pub open spec fn reading_result_view(r: Result<LatestReading, Error>) -> Result<
    LatestReadingView,
    Error,
> {
    match r {
        Ok(x) => Ok(x@),
        Err(e) => Err(e),
    }
}

impl View for OracleContract {
    type V = OracleContractView;

    closed spec fn view(&self) -> OracleContractView {
        OracleContractView {
            admin: match self.config {
                Some(c) => Some(c.admin@),
                None => None,
            },
            readings: keyed_map(self.readings@, reading_key(), reading_value()),
        }
    }
}

impl OracleContractView {
    /// The oracle before anything was stored.
    pub open spec fn empty() -> Self {
        OracleContractView { admin: None, readings: Map::empty() }
    }

    /// Setting up the oracle, once.
    pub open spec fn initialize(self, admin: Seq<u8>) -> (Self, Result<(), Error>) {
        if self.admin is Some {
            (self, Err(Error::AlreadyInitialized))
        } else {
            (OracleContractView { admin: Some(admin), ..self }, Ok(()))
        }
    }

    /// Submitting a reading at ledger time `current_time`: once the oracle is
    /// set up, it becomes the latest reading of its cell and kind.
    pub open spec fn submit(
        self,
        current_time: u64,
        geo_cell: Seq<u8>,
        reading_type: ReadingType,
        value: u32,
    ) -> (Self, Result<(), Error>) {
        if self.admin is None {
            (self, Err(Error::NotInitialized))
        } else {
            (
                OracleContractView {
                    readings: self.readings.insert(
                        (geo_cell, reading_type),
                        LatestReadingView { geo_cell, reading_type, value, timestamp: current_time },
                    ),
                    ..self
                },
                Ok(()),
            )
        }
    }

    /// The latest reading of a cell and kind.
    pub open spec fn latest(self, geo_cell: Seq<u8>, reading_type: ReadingType) -> Result<
        LatestReadingView,
        Error,
    > {
        latest_outcome(
            if self.readings.dom().contains((geo_cell, reading_type)) {
                Some(self.readings[(geo_cell, reading_type)])
            } else {
                None
            },
        )
    }

    /// Each reading is stored under its own cell and kind.
    pub open spec fn inv(self) -> bool {
        forall|k: (Seq<u8>, ReadingType)| #[trigger]
            self.readings.dom().contains(k) ==> (self.readings[k].geo_cell, self.readings[k].reading_type)
                == k
    }
}

/// The decision of setting up the oracle: the settings to store, or
/// `AlreadyInitialized` when it is set up already.
pub fn initialize_step(initialized: bool, admin: Address) -> (r: Result<Config, Error>)
    ensures
        initialized ==> r == Err::<Config, Error>(Error::AlreadyInitialized),
        !initialized ==> (r matches Ok(c) && c.admin@ == admin@),
{
    if initialized {
        return Err(Error::AlreadyInitialized);
    }
    Ok(Config { admin })
}

/// The decision of a submission at ledger time `current_time`: the reading to
/// store under its cell and kind, or `NotInitialized` before set-up.
pub fn submit_step(
    initialized: bool,
    current_time: u64,
    geo_cell: Vec<u8>,
    reading_type: ReadingType,
    value: u32,
) -> (r: Result<LatestReading, Error>)
    ensures
        !initialized ==> r == Err::<LatestReading, Error>(Error::NotInitialized),
        initialized ==> (r matches Ok(x) && x@ == (LatestReadingView {
            geo_cell: geo_cell@,
            reading_type,
            value,
            timestamp: current_time,
        })),
{
    if !initialized {
        return Err(Error::NotInitialized);
    }
    Ok(LatestReading { geo_cell, reading_type, value, timestamp: current_time })
}

/// The stored reading, taken by value, read as a value; `None` when there is none.
pub open spec fn owned_reading(r: Option<LatestReading>) -> Option<LatestReadingView> {
    match r {
        Some(r) => Some(r@),
        None => None,
    }
}

/// What a query for the latest reading comes to: the stored reading, or
/// `NoReadingsAvailable`.
pub open spec fn latest_outcome(stored: Option<LatestReadingView>) -> Result<LatestReadingView, Error> {
    match stored {
        Some(r) => Ok(r),
        None => Err(Error::NoReadingsAvailable),
    }
}

/// The answer to a query for the latest reading, from the stored reading.
pub fn get_latest_step(stored: Option<LatestReading>) -> (r: Result<LatestReading, Error>)
    ensures
        reading_result_view(r) == latest_outcome(owned_reading(stored)),
        stored matches Some(x) ==> r == Ok::<LatestReading, Error>(x),
        stored is None ==> r == Err::<LatestReading, Error>(Error::NoReadingsAvailable),
{
    match stored {
        Some(x) => Ok(x),
        None => Err(Error::NoReadingsAvailable),
    }
}

impl OracleContract {
    /// The stored data is consistent: each cell and kind occurs once, and each
    /// reading is stored under its own cell and kind.
    pub closed spec fn wf(&self) -> bool {
        &&& unique_keys(self.readings@, reading_key())
        &&& self@.inv()
    }

    /// A consistent oracle satisfies the invariant on its view.
    pub proof fn lemma_wf_inv(&self)
        requires
            self.wf(),
        ensures
            self@.inv(),
    {
    }

    /// The oracle before anything was stored.
    pub fn new() -> (c: OracleContract)
        ensures
            c.wf(),
            c@ == OracleContractView::empty(),
    {
        let c = OracleContract { config: None, readings: Vec::new() };
        assert(c@.readings =~= Map::empty());
        c
    }

    /// The position of the reading of a cell and kind, if there is one.
    fn find_reading(&self, geo_cell: &Vec<u8>, reading_type: ReadingType) -> (r: Option<usize>)
        ensures
            match r {
                Some(i) => i < self.readings@.len() && reading_key()(self.readings@[i as int]) == (
                    geo_cell@,
                    reading_type,
                ),
                None => !has_key(self.readings@, reading_key(), (geo_cell@, reading_type)),
            },
    {
        let n = self.readings.len();
        let mut i: usize = 0;
        while i < n
            invariant
                n == self.readings@.len(),
                i <= n,
                forall|j: int|
                    0 <= j < i ==> #[trigger] reading_key()(self.readings@[j]) != (
                        geo_cell@,
                        reading_type,
                    ),
            decreases n - i,
        {
            let r = &self.readings[i];
            if r.reading_type == reading_type && bytes_equal(&r.geo_cell, geo_cell) {
                return Some(i);
            }
            i = i + 1;
        }
        None
    }

    /// Sets up the oracle with its administrator; refused if already set up.
    pub fn initialize(&mut self, admin: Address) -> (r: Result<(), Error>)
        requires
            old(self).wf(),
        ensures
            final(self).wf(),
            (final(self)@, r) == old(self)@.initialize(admin@),
    {
        match initialize_step(self.config.is_some(), admin) {
            Ok(config) => {
                self.config = Some(config);
                Ok(())
            },
            Err(e) => Err(e),
        }
    }

    /// Records `value` as the latest reading of `reading_type` for `geo_cell`,
    /// stamped with the ledger time `current_time`; refused with
    /// `NotInitialized` before the oracle is set up.
    pub fn submit_reading(
        &mut self,
        current_time: u64,
        geo_cell: Vec<u8>,
        reading_type: ReadingType,
        value: u32,
    ) -> (r: Result<(), Error>)
        requires
            old(self).wf(),
        ensures
            final(self).wf(),
            (final(self)@, r) == old(self)@.submit(current_time, geo_cell@, reading_type, value),
    {
        let found = self.find_reading(&geo_cell, reading_type);
        let reading = match submit_step(
            self.config.is_some(),
            current_time,
            geo_cell,
            reading_type,
            value,
        ) {
            Ok(reading) => reading,
            Err(e) => {
                return Err(e);
            },
        };
        let ghost rs = self.readings@;
        let ghost rv = reading;
        match found {
            Some(i) => {
                self.readings.set(i, reading);
                proof {
                    lemma_keyed_map_update(rs, reading_key(), reading_value(), i as int, rv);
                }
            },
            None => {
                self.readings.push(reading);
                proof {
                    lemma_keyed_map_push(rs, reading_key(), reading_value(), rv);
                }
            },
        }
        Ok(())
    }

    /// The latest reading of `reading_type` for `geo_cell`, or
    /// `NoReadingsAvailable` if none was submitted.
    pub fn get_latest(&self, geo_cell: Vec<u8>, reading_type: ReadingType) -> (r: Result<
        LatestReading,
        Error,
    >)
        requires
            self.wf(),
        ensures
            reading_result_view(r) == self@.latest(geo_cell@, reading_type),
    {
        let stored = match self.find_reading(&geo_cell, reading_type) {
            Some(i) => {
                proof {
                    lemma_keyed_map_at(self.readings@, reading_key(), reading_value(), i as int);
                }
                Some(self.readings[i].duplicate())
            },
            None => None,
        };
        get_latest_step(stored)
    }
}


/// The oracle is set up once: a second `initialize` is refused with
/// `AlreadyInitialized` and changes nothing.
pub proof fn law_initialize_once(s: OracleContractView, admin: Seq<u8>, admin2: Seq<u8>)
    ensures
        ({
            let s1 = s.initialize(admin).0;
            s1.initialize(admin2) == (s1, Err::<(), Error>(Error::AlreadyInitialized))
        }),
{
}

/// Before set-up every submission is refused with `NotInitialized` and changes nothing.
pub proof fn law_submit_needs_setup(
    s: OracleContractView,
    current_time: u64,
    geo_cell: Seq<u8>,
    reading_type: ReadingType,
    value: u32,
)
    requires
        s.admin is None,
    ensures
        s.submit(current_time, geo_cell, reading_type, value) == (s, Err::<(), Error>(
            Error::NotInitialized,
        )),
{
}

/// Once set up, the latest reading of a cell and kind is the one submitted last,
/// stamped with its submission time; readings of other cells and kinds stay as
/// they were.
pub proof fn law_latest_after_submit(
    s: OracleContractView,
    current_time: u64,
    geo_cell: Seq<u8>,
    reading_type: ReadingType,
    value: u32,
    other_cell: Seq<u8>,
    other_type: ReadingType,
)
    requires
        s.admin is Some,
    ensures
        ({
            let (t, r) = s.submit(current_time, geo_cell, reading_type, value);
            &&& r == Ok::<(), Error>(())
            &&& t.latest(geo_cell, reading_type) == Ok::<LatestReadingView, Error>(
                LatestReadingView { geo_cell, reading_type, value, timestamp: current_time },
            )
            &&& (other_cell, other_type) != (geo_cell, reading_type) ==> t.latest(
                other_cell,
                other_type,
            ) == s.latest(other_cell, other_type)
        }),
{
}

/// A reading found for a cell and kind is of that cell and kind, and
/// submissions keep this so.
pub proof fn law_latest_matches_query(
    s: OracleContractView,
    geo_cell: Seq<u8>,
    reading_type: ReadingType,
    current_time: u64,
    cell: Seq<u8>,
    kind: ReadingType,
    value: u32,
)
    requires
        s.inv(),
    ensures
        s.latest(geo_cell, reading_type) matches Ok(x) ==> x.geo_cell == geo_cell && x.reading_type
            == reading_type,
        s.submit(current_time, cell, kind, value).0.inv(),
{
}


/// A query for the latest reading answers with the stored reading itself,
/// whatever its value, time, cell or kind, and with `NoReadingsAvailable`
/// exactly when nothing is stored.
pub proof fn law_latest_answer_is_stored(x: LatestReadingView)
    ensures
        latest_outcome(Some(x)) is Ok,
        latest_outcome(Some(x)) matches Ok(y) && y.value == x.value && y.timestamp == x.timestamp
            && y.geo_cell == x.geo_cell && y.reading_type == x.reading_type,
        latest_outcome(None) == Err::<LatestReadingView, Error>(Error::NoReadingsAvailable),
{
}

} // verus!

use vstd::prelude::*;
use vstd::rwlock::RwLock;
use crate::dataset::{Dataset, LookupRaw, lookup_faults, spec_schema};
use crate::ip::{IpAddrRepr, ip_key, parse_ip, spec_parse_ip};
use crate::kind::DatasetKind;
use crate::refresh::RefreshResult;

verus! {

/// The triple of currently loaded datasets. This is the single shared
/// mutable value of the service; it is only ever replaced as a whole, all
/// three fields together, never field by field.
pub struct DatasetSet {
    pub asn: Option<Dataset>,
    pub city: Option<Dataset>,
    pub country: Option<Dataset>,
}

impl DatasetSet {
    /// The field that serves one dataset kind.
    pub open spec fn spec_get(self, kind: DatasetKind) -> Option<Dataset> {
        match kind {
            DatasetKind::Asn => self.asn,
            DatasetKind::City => self.city,
            DatasetKind::Country => self.country,
        }
    }

    /// The set published by a cycle that produced the three given results.
    pub open spec fn spec_of_results(
        asn: RefreshResult,
        city: RefreshResult,
        country: RefreshResult,
    ) -> DatasetSet {
        DatasetSet {
            asn: asn.spec_dataset(),
            city: city.spec_dataset(),
            country: country.spec_dataset(),
        }
    }

    /// The set before any refresh cycle: nothing loaded.
    pub fn empty() -> (r: DatasetSet)
        ensures
            forall|k: DatasetKind| r.spec_get(k) is None,
    {
        DatasetSet { asn: None, city: None, country: None }
    }

    /// Builds the set that one refresh cycle publishes: each field comes from
    /// its own kind's result alone, a loaded dataset or nothing. A kind whose
    /// result is absence replaces whatever the previous cycle had published.
    pub fn of_results(asn: RefreshResult, city: RefreshResult, country: RefreshResult) -> (r:
        DatasetSet)
        ensures
            r == DatasetSet::spec_of_results(asn, city, country),
    {
        DatasetSet {
            asn: match asn {
                RefreshResult::Loaded(d) => Some(d),
                RefreshResult::Absent(_) => None,
            },
            city: match city {
                RefreshResult::Loaded(d) => Some(d),
                RefreshResult::Absent(_) => None,
            },
            country: match country {
                RefreshResult::Loaded(d) => Some(d),
                RefreshResult::Absent(_) => None,
            },
        }
    }

    /// Reads the field that serves one dataset kind.
    pub fn get(&self, kind: DatasetKind) -> (r: &Option<Dataset>)
        ensures
            *r == self.spec_get(kind),
    {
        match kind {
            DatasetKind::Asn => &self.asn,
            DatasetKind::City => &self.city,
            DatasetKind::Country => &self.country,
        }
    }
}

/// Law: the three kinds are independent. In the set a cycle publishes, the
/// field serving one kind is a function of that kind's own refresh result
/// alone; the results of the sibling kinds cannot reach it.
pub proof fn lemma_refresh_independence(
    asn: RefreshResult,
    city: RefreshResult,
    country: RefreshResult,
    kind: DatasetKind,
)
    ensures
        DatasetSet::spec_of_results(asn, city, country).spec_get(kind) == match kind {
            DatasetKind::Asn => asn.spec_dataset(),
            DatasetKind::City => city.spec_dataset(),
            DatasetKind::Country => country.spec_dataset(),
        },
{
}

/// Law: a cycle that loaded a dataset for a kind publishes exactly that
/// dataset for that kind; a lookup that then reads the published set resolves
/// against it (see the clauses of `lookup_in`).
pub proof fn lemma_publish_round_trip(
    asn: RefreshResult,
    city: RefreshResult,
    country: RefreshResult,
    kind: DatasetKind,
    d: Dataset,
)
    requires
        (match kind {
            DatasetKind::Asn => asn,
            DatasetKind::City => city,
            DatasetKind::Country => country,
        }) == RefreshResult::Loaded(d),
    ensures
        DatasetSet::spec_of_results(asn, city, country).spec_get(kind) == Some(d),
{
}

/// The outcome of one lookup, as handed to the boundary layer.
pub enum LookupOutcome {
    /// The dataset holds a record for the address: its JSON rendering.
    Found(String),
    /// The dataset is loaded but holds no record for the address.
    NotFound,
    /// No dataset is loaded for the kind, or the loaded one failed.
    Unavailable,
    /// The address string could not be parsed.
    Invalid,
}

/// Classifies what a dataset lookup came back with: a record is handed on as
/// found, a missing record as not found, and a database failure is surfaced
/// as the service being degraded for that kind.
pub fn outcome_of_raw(raw: LookupRaw) -> (r: LookupOutcome)
    ensures
        raw matches LookupRaw::Found(s) ==> r == LookupOutcome::Found(s),
        raw is NotFound ==> r == LookupOutcome::NotFound,
        raw is Error ==> r == LookupOutcome::Unavailable,
{
    match raw {
        LookupRaw::Found(s) => LookupOutcome::Found(s),
        LookupRaw::NotFound => LookupOutcome::NotFound,
        LookupRaw::Error => LookupOutcome::Unavailable,
    }
}

/// Resolves an already-parsed address against one snapshot of the dataset
/// set: no dataset for the kind means the service is degraded; otherwise the
/// outcome is pinned by that dataset's records for that address alone — the
/// record's rendering if it has one, NotFound if it has none, Unavailable
/// exactly where the database itself faults.
pub fn lookup_in(set: &DatasetSet, kind: DatasetKind, ip: &IpAddrRepr) -> (r: LookupOutcome)
    ensures
        set.spec_get(kind) is None ==> r == LookupOutcome::Unavailable,
        set.spec_get(kind) matches Some(d) ==> ({
            let schema = spec_schema(kind);
            let key = ip_key(*ip);
            &&& ((r is Unavailable) <==> lookup_faults(d, schema, key))
            &&& (!lookup_faults(d, schema, key) && d.records(schema).contains_key(key) ==> (
            r matches LookupOutcome::Found(s) && s@ == d.records(schema)[key]))
            &&& (!lookup_faults(d, schema, key) && !d.records(schema).contains_key(key)
                ==> r is NotFound)
        }),
        !(r is Invalid),
{
    match set.get(kind) {
        Some(d) => outcome_of_raw(d.lookup_raw(kind, ip)),
        None => LookupOutcome::Unavailable,
    }
}

/// The shared-ownership handle over the current DatasetSet: any number of
/// concurrent readers, and a writer that replaces the whole triple at once.
/// A reader sees either the set before a publish or the set after it, never
/// a mixture: the only write anywhere is the whole-value swap in `publish`.
pub struct SharedState {
    lock: RwLock<DatasetSet, spec_fn(DatasetSet) -> bool>,
}

impl SharedState {
    #[verifier::type_invariant]
    spec fn wf(self) -> bool {
        forall|s: DatasetSet| self.lock.inv(s)
    }

    /// A fresh handle with nothing loaded: every lookup is Unavailable until
    /// the first publish.
    pub fn new() -> (r: SharedState) {
        let lock = RwLock::<DatasetSet, spec_fn(DatasetSet) -> bool>::new(
            DatasetSet::empty(),
            Ghost(|s: DatasetSet| true),
        );
        SharedState { lock }
    }

    /// Atomically replaces the published set with `set`. Readers that hold
    /// the previous snapshot finish against it; every later read sees `set`
    /// whole. Publishes are serialized by the write lock; the last one wins.
    pub fn publish(&self, set: DatasetSet) {
        proof {
            use_type_invariant(self);
        }
        let (_, write_handle) = self.lock.acquire_write();
        write_handle.release_write(set);
    }

    /// Serves one query: parses the address, captures one snapshot of the
    /// published set, and resolves against that snapshot alone. The outcome
    /// is Invalid exactly when the address text does not parse; otherwise it
    /// follows `lookup_in` on the captured snapshot.
    pub fn lookup(&self, kind: DatasetKind, ip_text: &[u8]) -> (r: LookupOutcome)
        ensures
            (r is Invalid) <==> (spec_parse_ip(ip_text@) is None),
    {
        match parse_ip(ip_text) {
            None => LookupOutcome::Invalid,
            Some(addr) => {
                let read_handle = self.lock.acquire_read();
                let set = read_handle.borrow();
                let outcome = lookup_in(set, kind, &addr);
                read_handle.release_read();
                outcome
            },
        }
    }
}

} // verus!

use vstd::prelude::*;
use crate::kind::DatasetKind;

verus! {

/// Immutable service configuration, created once at startup and read-only
/// thereafter. Paths are plain strings; the refresh interval is in seconds.
#[derive(Clone)]
pub struct Config {
    pub socket_path: String,
    pub db_path: String,
    pub tmp_path: String,
    pub update_interval_secs: u64,
    pub asn_db_url: String,
    pub city_db_url: String,
    pub country_db_url: String,
}

impl Config {
    /// The remote source URL configured for one dataset kind.
    pub open spec fn spec_url_of(self, kind: DatasetKind) -> Seq<char> {
        match kind {
            DatasetKind::Asn => self.asn_db_url@,
            DatasetKind::City => self.city_db_url@,
            DatasetKind::Country => self.country_db_url@,
        }
    }

    /// Selects the remote source URL for one dataset kind.
    pub fn url_of(&self, kind: DatasetKind) -> (r: &String)
        ensures
            r@ == self.spec_url_of(kind),
    {
        match kind {
            DatasetKind::Asn => &self.asn_db_url,
            DatasetKind::City => &self.city_db_url,
            DatasetKind::Country => &self.country_db_url,
        }
    }
}

} // verus!

use vstd::prelude::*;

verus! {

/// Identifies one of the three independent geolocation datasets. The kind
/// selects the remote source, the local file name and the record schema.
#[derive(Clone, Copy, PartialEq, Eq, Structural, Debug)]
pub enum DatasetKind {
    Asn,
    City,
    Country,
}

impl DatasetKind {
    /// The local file name under the storage root for this dataset.
    pub open spec fn spec_file_name(self) -> Seq<char> {
        match self {
            DatasetKind::Asn => "GeoLite2-ASN.mmdb"@,
            DatasetKind::City => "GeoLite2-City.mmdb"@,
            DatasetKind::Country => "GeoLite2-Country.mmdb"@,
        }
    }

    /// The local file name under the storage root for this dataset.
    pub fn file_name(self) -> (r: &'static str)
        ensures
            r@ == self.spec_file_name(),
    {
        match self {
            DatasetKind::Asn => "GeoLite2-ASN.mmdb",
            DatasetKind::City => "GeoLite2-City.mmdb",
            DatasetKind::Country => "GeoLite2-Country.mmdb",
        }
    }
}

} // verus!

use vstd::prelude::*;
use crate::ip::{IpAddrRepr, ip_key};
use crate::kind::DatasetKind;

verus! {

/// Whether a byte image is a database that the loader accepts: the format
/// marker is present, the metadata section decodes and validates, and the
/// search tree lies within the buffer. A function of the bytes alone.
pub uninterp spec fn valid_image(bytes: Seq<u8>) -> bool;

/// What one opened dataset answers per address, under one record schema:
/// the JSON rendering of the stored record. The database is immutable and
/// the records decode into plain structs with a fixed field order, so the
/// rendering is a function of the database bytes, the schema and the
/// address alone.
pub uninterp spec fn records_of(d: Dataset, schema: int) -> Map<int, Seq<char>>;

/// Whether the resolve/decode/render chain fails for one address under one
/// schema: a data pointer out of range, a record that does not decode, or a
/// record that does not render. Like the records themselves, a function of
/// the database bytes, the schema and the address alone.
pub uninterp spec fn lookup_faults(d: Dataset, schema: int, key: int) -> bool;

/// The record schema that one dataset kind is read under.
pub open spec fn spec_schema(kind: DatasetKind) -> int {
    match kind {
        DatasetKind::Asn => 0,
        DatasetKind::City => 1,
        DatasetKind::Country => 2,
    }
}

/// Failure to load a local dataset.
#[derive(Clone, Copy, PartialEq, Eq, Structural, Debug)]
pub enum LoadError {
    /// The file does not exist.
    NotFound,
    /// The content is not a valid database.
    Corrupt,
}

/// What one point lookup against an opened dataset came back with.
pub enum LookupRaw {
    /// The database holds a record for the address: its JSON rendering.
    Found(String),
    /// The database holds no record for the address.
    NotFound,
    /// The database failed while resolving or rendering the record.
    Error,
}

/// An opened, immutable, queryable handle over one binary dataset image.
/// It holds maxminddb's reader, opaque to the verifier.
#[verifier::external_body]
pub struct Dataset {
    reader: maxminddb::Reader<Vec<u8>>,
}

impl Dataset {
    /// What this dataset answers per address under the given schema.
    pub open spec fn records(self, schema: int) -> Map<int, Seq<char>> {
        records_of(self, schema)
    }

    /// Opens an in-memory database image. Succeeds exactly on valid images;
    /// anything else is rejected as corrupt. Callers that load from disk
    /// read the bytes at the edge and hand them in here.
    pub fn from_bytes(image: Vec<u8>) -> (r: Result<Dataset, LoadError>)
        ensures
            r is Ok <==> valid_image(image@),
            r matches Err(e) ==> e == LoadError::Corrupt,
    {
        source_reader(image)
    }

    /// Resolves one address against this dataset under the schema of `kind`:
    /// the stored record's rendering if the address has one, NotFound if it
    /// has none, Error exactly where the database itself faults.
    pub fn lookup_raw(&self, kind: DatasetKind, ip: &IpAddrRepr) -> (r: LookupRaw)
        ensures
            r is Error <==> lookup_faults(*self, spec_schema(kind), ip_key(*ip)),
            r matches LookupRaw::Found(s) ==> self.records(spec_schema(kind)).contains_key(
                ip_key(*ip),
            ) && s@ == self.records(spec_schema(kind))[ip_key(*ip)],
            r is NotFound ==> !self.records(spec_schema(kind)).contains_key(ip_key(*ip)),
            !lookup_faults(*self, spec_schema(kind), ip_key(*ip)) && self.records(
                spec_schema(kind),
            ).contains_key(ip_key(*ip)) ==> r is Found,
    {
        match kind {
            DatasetKind::Asn => lookup_asn_raw(self, ip),
            DatasetKind::City => lookup_city_raw(self, ip),
            DatasetKind::Country => lookup_country_raw(self, ip),
        }
    }
}

/// Relies on maxminddb::Reader::from_source: it validates the metadata and
/// the search-tree layout and accepts or rejects the image, deciding on the
/// bytes alone; its decoder bounds every read against the buffer, so it
/// returns an error rather than panicking on malformed input.
#[verifier::external_body]
fn source_reader(image: Vec<u8>) -> (r: Result<Dataset, LoadError>)
    ensures
        r is Ok <==> valid_image(image@),
        r matches Err(e) ==> e == LoadError::Corrupt,
{
    match maxminddb::Reader::from_source(image) {
        Ok(reader) => Ok(Dataset { reader }),
        Err(_) => Err(LoadError::Corrupt),
    }
}

/// Relies on maxminddb::Reader::lookup and LookupResult::decode with the
/// geoip2 ASN schema, and on serde_json::to_string of the decoded record:
/// the three stand in one body because the result borrows the reader.
/// decode answers Ok(Some(..)) exactly when the database holds a record for
/// the address and Ok(None) when it holds none; either call fails only
/// where the database itself is damaged. All of it is a function of the
/// database bytes and the address; tree reads are bounded by the layout
/// check at open and the decoder bounds every read, so no input panics.
#[verifier::external_body]
fn lookup_asn_raw(d: &Dataset, ip: &IpAddrRepr) -> (r: LookupRaw)
    ensures
        r is Error <==> lookup_faults(*d, 0, ip_key(*ip)),
        r matches LookupRaw::Found(s) ==> records_of(*d, 0).contains_key(ip_key(*ip)) && s@
            == records_of(*d, 0)[ip_key(*ip)],
        r is NotFound ==> !records_of(*d, 0).contains_key(ip_key(*ip)),
        !lookup_faults(*d, 0, ip_key(*ip)) && records_of(*d, 0).contains_key(ip_key(*ip))
            ==> r is Found,
{
    let addr = match ip {
        IpAddrRepr::V4(n) => core::net::IpAddr::V4(core::net::Ipv4Addr::from(*n)),
        IpAddrRepr::V6(n) => core::net::IpAddr::V6(core::net::Ipv6Addr::from(*n)),
    };
    match d.reader.lookup(addr) {
        Ok(result) => match result.decode::<maxminddb::geoip2::Asn>() {
            Ok(Some(rec)) => match serde_json::to_string(&rec) {
                Ok(s) => LookupRaw::Found(s),
                Err(_) => LookupRaw::Error,
            },
            Ok(None) => LookupRaw::NotFound,
            Err(_) => LookupRaw::Error,
        },
        Err(_) => LookupRaw::Error,
    }
}

/// Relies on maxminddb::Reader::lookup, LookupResult::decode with the
/// geoip2 City schema, and serde_json::to_string, exactly as the ASN
/// wrapper does.
#[verifier::external_body]
fn lookup_city_raw(d: &Dataset, ip: &IpAddrRepr) -> (r: LookupRaw)
    ensures
        r is Error <==> lookup_faults(*d, 1, ip_key(*ip)),
        r matches LookupRaw::Found(s) ==> records_of(*d, 1).contains_key(ip_key(*ip)) && s@
            == records_of(*d, 1)[ip_key(*ip)],
        r is NotFound ==> !records_of(*d, 1).contains_key(ip_key(*ip)),
        !lookup_faults(*d, 1, ip_key(*ip)) && records_of(*d, 1).contains_key(ip_key(*ip))
            ==> r is Found,
{
    let addr = match ip {
        IpAddrRepr::V4(n) => core::net::IpAddr::V4(core::net::Ipv4Addr::from(*n)),
        IpAddrRepr::V6(n) => core::net::IpAddr::V6(core::net::Ipv6Addr::from(*n)),
    };
    match d.reader.lookup(addr) {
        Ok(result) => match result.decode::<maxminddb::geoip2::City>() {
            Ok(Some(rec)) => match serde_json::to_string(&rec) {
                Ok(s) => LookupRaw::Found(s),
                Err(_) => LookupRaw::Error,
            },
            Ok(None) => LookupRaw::NotFound,
            Err(_) => LookupRaw::Error,
        },
        Err(_) => LookupRaw::Error,
    }
}

/// Relies on maxminddb::Reader::lookup, LookupResult::decode with the
/// geoip2 Country schema, and serde_json::to_string, exactly as the ASN
/// wrapper does.
#[verifier::external_body]
fn lookup_country_raw(d: &Dataset, ip: &IpAddrRepr) -> (r: LookupRaw)
    ensures
        r is Error <==> lookup_faults(*d, 2, ip_key(*ip)),
        r matches LookupRaw::Found(s) ==> records_of(*d, 2).contains_key(ip_key(*ip)) && s@
            == records_of(*d, 2)[ip_key(*ip)],
        r is NotFound ==> !records_of(*d, 2).contains_key(ip_key(*ip)),
        !lookup_faults(*d, 2, ip_key(*ip)) && records_of(*d, 2).contains_key(ip_key(*ip))
            ==> r is Found,
{
    let addr = match ip {
        IpAddrRepr::V4(n) => core::net::IpAddr::V4(core::net::Ipv4Addr::from(*n)),
        IpAddrRepr::V6(n) => core::net::IpAddr::V6(core::net::Ipv6Addr::from(*n)),
    };
    match d.reader.lookup(addr) {
        Ok(result) => match result.decode::<maxminddb::geoip2::Country>() {
            Ok(Some(rec)) => match serde_json::to_string(&rec) {
                Ok(s) => LookupRaw::Found(s),
                Err(_) => LookupRaw::Error,
            },
            Ok(None) => LookupRaw::NotFound,
            Err(_) => LookupRaw::Error,
        },
        Err(_) => LookupRaw::Error,
    }
}

} // verus!

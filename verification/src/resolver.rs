//! The request-resolution path: parse an address, query the dataset,
//! project the raw record into the minimal three-field result.
//!
//! The whole operation is pinned down by [`spec_resolve`], a pure function
//! of the dataset's content and the input text: repeated calls on the same
//! dataset and input are therefore guaranteed to agree.

use crate::dataset::{DatasetError, GeoDataset};
use crate::ip::{parse_ip, spec_parse_ip, IpAddress};
use crate::record::{
    find_name, copy_bytes, spec_get_name, CountryGroupView, ContinentGroupView, LocationRecord,
    LocationRecordView,
};
use vstd::prelude::*;

verus! {

/// Failure of one resolve operation.
#[derive(Clone, Copy, PartialEq, Eq, Structural, Debug)]
pub enum ResolveError {
    /// The input text is not a syntactically valid IP address.
    InvalidAddress,
    /// The dataset query itself failed.
    DatasetFailure,
    /// The dataset returned an entry lacking a required sub-field.
    IncompleteRecord,
}

/// The outcome of a successful resolve: either no entry (an empty result),
/// or all three fields.
#[derive(Debug)]
pub enum ResolvedLocation {
    Empty,
    Found { country: Vec<u8>, country_code: Vec<u8>, continent: Vec<u8> },
}

pub enum ResolvedLocationView {
    Empty,
    Found { country: Seq<u8>, country_code: Seq<u8>, continent: Seq<u8> },
}

impl View for ResolvedLocation {
    type V = ResolvedLocationView;

    open spec fn view(&self) -> ResolvedLocationView {
        match self {
            ResolvedLocation::Empty => ResolvedLocationView::Empty,
            ResolvedLocation::Found { country, country_code, continent } => {
                ResolvedLocationView::Found {
                    country: country@,
                    country_code: country_code@,
                    continent: continent@,
                }
            },
        }
    }
}

/// The fixed locale whose display names the response carries: "en".
pub open spec fn locale_en() -> Seq<u8> {
    seq![101u8, 110u8]
}

/// The fixed locale as bytes.
pub fn locale_en_bytes() -> (v: Vec<u8>)
    ensures
        v@ == locale_en(),
{
    let mut v: Vec<u8> = Vec::new();
    v.push(101);
    v.push(110);
    proof {
        assert(v@ =~= locale_en());
    }
    v
}

/// Whether a country group carries everything the response needs: an ISO
/// code and a display name for the fixed locale.
pub open spec fn country_complete(c: CountryGroupView) -> bool {
    &&& c.iso_code is Some
    &&& c.names matches Some(ns) && spec_get_name(ns, locale_en()) is Some
}

/// Whether a continent group carries a display name for the fixed locale.
pub open spec fn continent_complete(c: ContinentGroupView) -> bool {
    c.names matches Some(ns) && spec_get_name(ns, locale_en()) is Some
}

/// Whether a record carries every field the minimal response requires.
pub open spec fn record_complete(r: LocationRecordView) -> bool {
    &&& r.country matches Some(c) && country_complete(c)
    &&& r.continent matches Some(c) && continent_complete(c)
}

pub open spec fn spec_country_name(r: LocationRecordView) -> Seq<u8> {
    spec_get_name(r.country->Some_0.names->Some_0, locale_en())->Some_0
}

pub open spec fn spec_country_code(r: LocationRecordView) -> Seq<u8> {
    r.country->Some_0.iso_code->Some_0
}

pub open spec fn spec_continent_name(r: LocationRecordView) -> Seq<u8> {
    spec_get_name(r.continent->Some_0.names->Some_0, locale_en())->Some_0
}

/// What projecting a found record yields: all three fields, or the
/// incomplete-record failure — never a partial result.
pub open spec fn spec_project(r: LocationRecordView) -> Result<
    ResolvedLocationView,
    ResolveError,
> {
    if record_complete(r) {
        Ok(
            ResolvedLocationView::Found {
                country: spec_country_name(r),
                country_code: spec_country_code(r),
                continent: spec_continent_name(r),
            },
        )
    } else {
        Err(ResolveError::IncompleteRecord)
    }
}

/// What resolving `text` against a dataset with content `entries` yields.
pub open spec fn spec_resolve(
    entries: Map<IpAddress, LocationRecordView>,
    text: Seq<u8>,
) -> Result<ResolvedLocationView, ResolveError> {
    match spec_parse_ip(text) {
        None => Err(ResolveError::InvalidAddress),
        Some(ip) => if !entries.contains_key(ip) {
            Ok(ResolvedLocationView::Empty)
        } else {
            spec_project(entries[ip])
        },
    }
}

/// Project one raw record into the minimal response shape.
pub fn project_record(rec: &LocationRecord) -> (r: Result<ResolvedLocation, ResolveError>)
    ensures
        (match r {
            Ok(loc) => spec_project(rec@) == Ok::<ResolvedLocationView, ResolveError>(loc@),
            Err(e) => spec_project(rec@) == Err::<ResolvedLocationView, ResolveError>(e),
        }),
{
    let loc_en = locale_en_bytes();
    let continent_group = match &rec.continent {
        Some(c) => c,
        None => {
            return Err(ResolveError::IncompleteRecord);
        },
    };
    let country_group = match &rec.country {
        Some(c) => c,
        None => {
            return Err(ResolveError::IncompleteRecord);
        },
    };
    let country_names = match &country_group.names {
        Some(ns) => ns,
        None => {
            return Err(ResolveError::IncompleteRecord);
        },
    };
    let country_name = match find_name(country_names, loc_en.as_slice()) {
        Some(n) => n,
        None => {
            return Err(ResolveError::IncompleteRecord);
        },
    };
    let country_code = match &country_group.iso_code {
        Some(c) => c,
        None => {
            return Err(ResolveError::IncompleteRecord);
        },
    };
    let continent_names = match &continent_group.names {
        Some(ns) => ns,
        None => {
            return Err(ResolveError::IncompleteRecord);
        },
    };
    let continent_name = match find_name(continent_names, loc_en.as_slice()) {
        Some(n) => n,
        None => {
            return Err(ResolveError::IncompleteRecord);
        },
    };
    Ok(
        ResolvedLocation::Found {
            country: copy_bytes(country_name),
            country_code: copy_bytes(country_code),
            continent: copy_bytes(continent_name),
        },
    )
}

/// Shape a dataset lookup's outcome into the resolve result: a query
/// failure maps to [`ResolveError::DatasetFailure`], no entry to the empty
/// result, and a found record to its projection.
pub fn project_outcome(outcome: Result<Option<LocationRecord>, DatasetError>) -> (r: Result<
    ResolvedLocation,
    ResolveError,
>)
    ensures
        outcome is Err ==> r == Err::<ResolvedLocation, ResolveError>(
            ResolveError::DatasetFailure,
        ),
        outcome matches Ok(None) ==> r matches Ok(loc) && loc@ == ResolvedLocationView::Empty,
        outcome matches Ok(Some(rec)) ==> (match r {
            Ok(loc) => spec_project(rec@) == Ok::<ResolvedLocationView, ResolveError>(loc@),
            Err(e) => spec_project(rec@) == Err::<ResolvedLocationView, ResolveError>(e),
        }),
{
    match outcome {
        Err(_) => Err(ResolveError::DatasetFailure),
        Ok(None) => Ok(ResolvedLocation::Empty),
        Ok(Some(rec)) => project_record(&rec),
    }
}

/// Resolve the textual address `ip_text` against a dataset.
///
/// The outcome is a pure function of the dataset's content and the input
/// text — see [`spec_resolve`] — except that a fallible dataset may turn
/// any post-parse outcome into [`ResolveError::DatasetFailure`].  On an
/// input that does not parse, the result is [`ResolveError::InvalidAddress`]
/// and the dataset is never queried.
pub fn resolve<D: GeoDataset>(ds: &D, ip_text: &[u8]) -> (r: Result<
    ResolvedLocation,
    ResolveError,
>)
    ensures
        spec_parse_ip(ip_text@) is None ==> r == Err::<ResolvedLocation, ResolveError>(
            ResolveError::InvalidAddress,
        ),
        (match r {
            Ok(loc) => spec_resolve(ds.entries(), ip_text@) == Ok::<
                ResolvedLocationView,
                ResolveError,
            >(loc@),
            Err(e) => e == ResolveError::DatasetFailure || spec_resolve(ds.entries(), ip_text@)
                == Err::<ResolvedLocationView, ResolveError>(e),
        }),
        ds.infallible() ==> (match r {
            Ok(loc) => spec_resolve(ds.entries(), ip_text@) == Ok::<
                ResolvedLocationView,
                ResolveError,
            >(loc@),
            Err(e) => spec_resolve(ds.entries(), ip_text@) == Err::<
                ResolvedLocationView,
                ResolveError,
            >(e),
        }),
{
    match parse_ip(ip_text) {
        None => Err(ResolveError::InvalidAddress),
        Some(ip) => {
            let outcome = ds.lookup(&ip);
            project_outcome(outcome)
        },
    }
}

/// A well-formed address absent from the dataset resolves to the empty
/// result — never an error.
pub proof fn lemma_unknown_address_empty(
    entries: Map<IpAddress, LocationRecordView>,
    text: Seq<u8>,
    ip: IpAddress,
)
    requires
        spec_parse_ip(text) == Some(ip),
        !entries.contains_key(ip),
    ensures
        spec_resolve(entries, text) == Ok::<ResolvedLocationView, ResolveError>(
            ResolvedLocationView::Empty,
        ),
{
}

/// Text that does not parse as an address resolves to the invalid-address
/// failure, whatever the dataset holds: the outcome is independent of the
/// dataset, so no query can contribute to it.
pub proof fn lemma_invalid_address(
    entries_a: Map<IpAddress, LocationRecordView>,
    entries_b: Map<IpAddress, LocationRecordView>,
    text: Seq<u8>,
)
    requires
        spec_parse_ip(text) is None,
    ensures
        spec_resolve(entries_a, text) == Err::<ResolvedLocationView, ResolveError>(
            ResolveError::InvalidAddress,
        ),
        spec_resolve(entries_a, text) == spec_resolve(entries_b, text),
{
}

/// Resolution is deterministic.  Every resolve outcome equals
/// [`spec_resolve`] of the dataset content and the input text, so two
/// outcomes for the same content and text are one and the same — and the
/// rendered JSON, a pure function of the outcome, is byte-identical across
/// repeated calls.
pub proof fn lemma_resolve_deterministic(
    entries: Map<IpAddress, LocationRecordView>,
    text: Seq<u8>,
    r1: Result<ResolvedLocationView, ResolveError>,
    r2: Result<ResolvedLocationView, ResolveError>,
)
    requires
        r1 == spec_resolve(entries, text),
        r2 == spec_resolve(entries, text),
    ensures
        r1 == r2,
{
}

/// An entry lacking a required group, locale name or ISO code resolves to
/// the incomplete-record failure, and to no partial result.
pub proof fn lemma_incomplete_record(
    entries: Map<IpAddress, LocationRecordView>,
    text: Seq<u8>,
    ip: IpAddress,
)
    requires
        spec_parse_ip(text) == Some(ip),
        entries.contains_key(ip),
        !record_complete(entries[ip]),
    ensures
        spec_resolve(entries, text) == Err::<ResolvedLocationView, ResolveError>(
            ResolveError::IncompleteRecord,
        ),
{
}

} // verus!

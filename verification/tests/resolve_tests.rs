use geo_resolver::dataset::{DatasetError, GeoDataset, MemoryDataset};
use geo_resolver::ip::IpAddress;
use geo_resolver::json::{render_json, resolve_json};
use geo_resolver::record::{ContinentGroup, CountryGroup, LocationRecord, NameEntry};
use geo_resolver::resolver::{project_outcome, resolve, ResolveError, ResolvedLocation};

fn entry(locale: &str, name: &str) -> NameEntry {
    NameEntry { locale: locale.as_bytes().to_vec(), name: name.as_bytes().to_vec() }
}

fn record(code: &str, country: &str, continent: &str) -> LocationRecord {
    LocationRecord {
        country: Some(CountryGroup {
            iso_code: Some(code.as_bytes().to_vec()),
            names: Some(vec![entry("en", country)]),
        }),
        continent: Some(ContinentGroup { names: Some(vec![entry("en", continent)]) }),
    }
}

fn v4(a: u8, b: u8, c: u8, d: u8) -> IpAddress {
    IpAddress::V4 { a, b, c, d }
}

#[test]
fn known_address_yields_full_object() {
    let mut ds = MemoryDataset::new();
    ds.add(v4(8, 8, 8, 8), record("US", "United States", "North America"));
    let out = resolve_json(&ds, b"8.8.8.8").unwrap();
    assert_eq!(
        out,
        br#"{"country":"United States","country_code":"US","continent":"North America"}"#.to_vec()
    );
}

#[test]
fn unknown_address_yields_empty_object() {
    let mut ds = MemoryDataset::new();
    ds.add(v4(8, 8, 8, 8), record("US", "United States", "North America"));
    let out = resolve_json(&ds, b"203.0.113.1").unwrap();
    assert_eq!(out, b"{}".to_vec());
}

#[test]
fn unknown_ipv6_address_yields_empty_object() {
    let ds = MemoryDataset::new();
    let out = resolve_json(&ds, b"2001:db8::1").unwrap();
    assert_eq!(out, b"{}".to_vec());
}

#[test]
fn invalid_address_is_rejected() {
    let mut ds = MemoryDataset::new();
    ds.add(v4(8, 8, 8, 8), record("US", "United States", "North America"));
    let err = resolve_json(&ds, b"not-an-ip").unwrap_err();
    assert_eq!(err, ResolveError::InvalidAddress);
}

#[test]
fn missing_continent_group_is_incomplete() {
    let mut ds = MemoryDataset::new();
    let rec = LocationRecord {
        country: Some(CountryGroup {
            iso_code: Some(b"US".to_vec()),
            names: Some(vec![entry("en", "United States")]),
        }),
        continent: None,
    };
    ds.add(v4(1, 2, 3, 4), rec);
    assert_eq!(resolve_json(&ds, b"1.2.3.4").unwrap_err(), ResolveError::IncompleteRecord);
}

#[test]
fn missing_country_group_is_incomplete() {
    let mut ds = MemoryDataset::new();
    let rec = LocationRecord {
        country: None,
        continent: Some(ContinentGroup { names: Some(vec![entry("en", "Europe")]) }),
    };
    ds.add(v4(1, 2, 3, 4), rec);
    assert_eq!(resolve_json(&ds, b"1.2.3.4").unwrap_err(), ResolveError::IncompleteRecord);
}

#[test]
fn missing_iso_code_is_incomplete() {
    let mut ds = MemoryDataset::new();
    let rec = LocationRecord {
        country: Some(CountryGroup {
            iso_code: None,
            names: Some(vec![entry("en", "France")]),
        }),
        continent: Some(ContinentGroup { names: Some(vec![entry("en", "Europe")]) }),
    };
    ds.add(v4(1, 2, 3, 4), rec);
    assert_eq!(resolve_json(&ds, b"1.2.3.4").unwrap_err(), ResolveError::IncompleteRecord);
}

#[test]
fn missing_fixed_locale_name_is_incomplete() {
    let mut ds = MemoryDataset::new();
    let rec = LocationRecord {
        country: Some(CountryGroup {
            iso_code: Some(b"FR".to_vec()),
            names: Some(vec![entry("fr", "France")]),
        }),
        continent: Some(ContinentGroup { names: Some(vec![entry("en", "Europe")]) }),
    };
    ds.add(v4(1, 2, 3, 4), rec);
    assert_eq!(resolve_json(&ds, b"1.2.3.4").unwrap_err(), ResolveError::IncompleteRecord);
}

#[test]
fn missing_continent_names_is_incomplete() {
    let mut ds = MemoryDataset::new();
    let rec = LocationRecord {
        country: Some(CountryGroup {
            iso_code: Some(b"FR".to_vec()),
            names: Some(vec![entry("en", "France")]),
        }),
        continent: Some(ContinentGroup { names: None }),
    };
    ds.add(v4(1, 2, 3, 4), rec);
    assert_eq!(resolve_json(&ds, b"1.2.3.4").unwrap_err(), ResolveError::IncompleteRecord);
}

#[test]
fn repeated_resolution_is_byte_identical() {
    let mut ds = MemoryDataset::new();
    ds.add(v4(8, 8, 8, 8), record("US", "United States", "North America"));
    let first = resolve_json(&ds, b"8.8.8.8").unwrap();
    let second = resolve_json(&ds, b"8.8.8.8").unwrap();
    let third = resolve_json(&ds, b"8.8.8.8").unwrap();
    assert_eq!(first, second);
    assert_eq!(second, third);
}

#[test]
fn interleaved_lookups_do_not_interfere() {
    let mut ds = MemoryDataset::new();
    ds.add(v4(8, 8, 8, 8), record("US", "United States", "North America"));
    ds.add(v4(9, 9, 9, 9), record("DE", "Germany", "Europe"));
    let us_a = resolve_json(&ds, b"8.8.8.8").unwrap();
    let de_a = resolve_json(&ds, b"9.9.9.9").unwrap();
    let us_b = resolve_json(&ds, b"8.8.8.8").unwrap();
    let de_b = resolve_json(&ds, b"9.9.9.9").unwrap();
    assert_eq!(us_a, us_b);
    assert_eq!(de_a, de_b);
    assert_eq!(
        us_a,
        br#"{"country":"United States","country_code":"US","continent":"North America"}"#.to_vec()
    );
    assert_eq!(
        de_a,
        br#"{"country":"Germany","country_code":"DE","continent":"Europe"}"#.to_vec()
    );
}

#[test]
fn later_entry_for_same_address_wins() {
    let mut ds = MemoryDataset::new();
    ds.add(v4(8, 8, 8, 8), record("US", "United States", "North America"));
    ds.add(v4(8, 8, 8, 8), record("CA", "Canada", "North America"));
    let out = resolve_json(&ds, b"8.8.8.8").unwrap();
    assert_eq!(
        out,
        br#"{"country":"Canada","country_code":"CA","continent":"North America"}"#.to_vec()
    );
}

#[test]
fn dataset_failure_maps_to_resolve_error() {
    let outcome: Result<Option<LocationRecord>, DatasetError> =
        Err(DatasetError { detail: b"corrupt entry".to_vec() });
    assert_eq!(project_outcome(outcome).unwrap_err(), ResolveError::DatasetFailure);
}

#[test]
fn lookup_outcome_without_entry_is_empty() {
    let outcome: Result<Option<LocationRecord>, DatasetError> = Ok(None);
    let loc = project_outcome(outcome).unwrap();
    assert!(matches!(loc, ResolvedLocation::Empty));
    assert_eq!(render_json(&loc), b"{}".to_vec());
}

#[test]
fn resolve_returns_structured_location() {
    let mut ds = MemoryDataset::new();
    ds.add(v4(8, 8, 8, 8), record("US", "United States", "North America"));
    match resolve(&ds, b"8.8.8.8").unwrap() {
        ResolvedLocation::Found { country, country_code, continent } => {
            assert_eq!(country, b"United States".to_vec());
            assert_eq!(country_code, b"US".to_vec());
            assert_eq!(continent, b"North America".to_vec());
        },
        ResolvedLocation::Empty => panic!("expected a populated location"),
    }
}

#[test]
fn first_matching_locale_entry_is_used() {
    let mut ds = MemoryDataset::new();
    let rec = LocationRecord {
        country: Some(CountryGroup {
            iso_code: Some(b"US".to_vec()),
            names: Some(vec![
                entry("de", "Vereinigte Staaten"),
                entry("en", "United States"),
                entry("en", "USA"),
            ]),
        }),
        continent: Some(ContinentGroup { names: Some(vec![entry("en", "North America")]) }),
    };
    ds.add(v4(8, 8, 8, 8), rec);
    let out = resolve_json(&ds, b"8.8.8.8").unwrap();
    assert_eq!(
        out,
        br#"{"country":"United States","country_code":"US","continent":"North America"}"#.to_vec()
    );
}

#[test]
fn ipv6_entry_resolves_to_full_object() {
    let mut ds = MemoryDataset::new();
    let ip = IpAddress::V6 { g0: 0x2001, g1: 0xdb8, g2: 0, g3: 0, g4: 0, g5: 0, g6: 0, g7: 1 };
    ds.add(ip, record("CH", "Switzerland", "Europe"));
    let out = resolve_json(&ds, b"2001:db8::1").unwrap();
    assert_eq!(
        out,
        br#"{"country":"Switzerland","country_code":"CH","continent":"Europe"}"#.to_vec()
    );
}

#[test]
fn equivalent_ipv6_spellings_hit_the_same_entry() {
    let mut ds = MemoryDataset::new();
    let ip = IpAddress::V6 { g0: 0x2001, g1: 0xdb8, g2: 0, g3: 0, g4: 0, g5: 0, g6: 0, g7: 1 };
    ds.add(ip, record("CH", "Switzerland", "Europe"));
    let compressed = resolve_json(&ds, b"2001:db8::1").unwrap();
    let expanded = resolve_json(&ds, b"2001:0db8:0000:0000:0000:0000:0000:0001").unwrap();
    assert_eq!(compressed, expanded);
    assert_ne!(compressed, b"{}".to_vec());
}

#[test]
fn empty_dataset_resolves_everything_to_empty() {
    let ds = MemoryDataset::new();
    assert_eq!(resolve_json(&ds, b"0.0.0.0").unwrap(), b"{}".to_vec());
    assert_eq!(resolve_json(&ds, b"255.255.255.255").unwrap(), b"{}".to_vec());
    assert_eq!(resolve_json(&ds, b"::").unwrap(), b"{}".to_vec());
}

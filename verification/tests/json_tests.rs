use geo_resolver::dataset::MemoryDataset;
use geo_resolver::ip::IpAddress;
use geo_resolver::json::{render_json, resolve_json};
use geo_resolver::record::{ContinentGroup, CountryGroup, LocationRecord, NameEntry};
use geo_resolver::resolver::ResolvedLocation;

fn entry(locale: &str, name: &[u8]) -> NameEntry {
    NameEntry { locale: locale.as_bytes().to_vec(), name: name.to_vec() }
}

fn dataset_with_names(code: &[u8], country: &[u8], continent: &[u8]) -> MemoryDataset {
    let mut ds = MemoryDataset::new();
    let rec = LocationRecord {
        country: Some(CountryGroup {
            iso_code: Some(code.to_vec()),
            names: Some(vec![entry("en", country)]),
        }),
        continent: Some(ContinentGroup { names: Some(vec![entry("en", continent)]) }),
    };
    ds.add(IpAddress::V4 { a: 1, b: 2, c: 3, d: 4 }, rec);
    ds
}

#[test]
fn renders_empty_location() {
    assert_eq!(render_json(&ResolvedLocation::Empty), b"{}".to_vec());
}

#[test]
fn renders_found_location() {
    let loc = ResolvedLocation::Found {
        country: b"Peru".to_vec(),
        country_code: b"PE".to_vec(),
        continent: b"South America".to_vec(),
    };
    assert_eq!(
        render_json(&loc),
        br#"{"country":"Peru","country_code":"PE","continent":"South America"}"#.to_vec()
    );
}

#[test]
fn escapes_quotes_and_backslashes() {
    let ds = dataset_with_names(b"XX", b"A\"B\\C", b"Somewhere");
    let out = resolve_json(&ds, b"1.2.3.4").unwrap();
    assert_eq!(
        out,
        br#"{"country":"A\"B\\C","country_code":"XX","continent":"Somewhere"}"#.to_vec()
    );
}

#[test]
fn escapes_control_characters() {
    let ds = dataset_with_names(b"XX", b"a\nb\tc\rd\x01e", b"Somewhere");
    let out = resolve_json(&ds, b"1.2.3.4").unwrap();
    assert_eq!(
        out,
        br#"{"country":"a\nb\tc\rd\u0001e","country_code":"XX","continent":"Somewhere"}"#.to_vec()
    );
}

#[test]
fn passes_utf8_names_through() {
    let name = "Perú".as_bytes();
    let ds = dataset_with_names(b"PE", name, "América del Sur".as_bytes());
    let out = resolve_json(&ds, b"1.2.3.4").unwrap();
    let expected = format!(
        "{{\"country\":\"{}\",\"country_code\":\"PE\",\"continent\":\"{}\"}}",
        "Perú", "América del Sur"
    );
    assert_eq!(out, expected.into_bytes());
}

//! The raw hierarchical location record returned by a dataset lookup.
//!
//! A record carries two optional groups, `country` and `continent`; each
//! group's fields are themselves optional, as the dataset may hold only part
//! of an entry.  Display names are tables of locale → name pairs.

use vstd::prelude::*;

verus! {

/// One locale → display-name pair in a names table.
#[derive(Debug)]
pub struct NameEntry {
    pub locale: Vec<u8>,
    pub name: Vec<u8>,
}

pub struct NameEntryView {
    pub locale: Seq<u8>,
    pub name: Seq<u8>,
}

impl View for NameEntry {
    type V = NameEntryView;

    open spec fn view(&self) -> NameEntryView {
        NameEntryView { locale: self.locale@, name: self.name@ }
    }
}

/// The `country` group of a raw record.
#[derive(Debug)]
pub struct CountryGroup {
    pub iso_code: Option<Vec<u8>>,
    pub names: Option<Vec<NameEntry>>,
}

pub struct CountryGroupView {
    pub iso_code: Option<Seq<u8>>,
    pub names: Option<Seq<NameEntryView>>,
}

impl View for CountryGroup {
    type V = CountryGroupView;

    open spec fn view(&self) -> CountryGroupView {
        CountryGroupView {
            iso_code: match self.iso_code {
                Some(c) => Some(c@),
                None => None,
            },
            names: match self.names {
                Some(ns) => Some(ns@.map_values(|e: NameEntry| e@)),
                None => None,
            },
        }
    }
}

/// The `continent` group of a raw record.
#[derive(Debug)]
pub struct ContinentGroup {
    pub names: Option<Vec<NameEntry>>,
}

pub struct ContinentGroupView {
    pub names: Option<Seq<NameEntryView>>,
}

impl View for ContinentGroup {
    type V = ContinentGroupView;

    open spec fn view(&self) -> ContinentGroupView {
        ContinentGroupView {
            names: match self.names {
                Some(ns) => Some(ns@.map_values(|e: NameEntry| e@)),
                None => None,
            },
        }
    }
}

/// The raw hierarchical record for one address.
#[derive(Debug)]
pub struct LocationRecord {
    pub country: Option<CountryGroup>,
    pub continent: Option<ContinentGroup>,
}

pub struct LocationRecordView {
    pub country: Option<CountryGroupView>,
    pub continent: Option<ContinentGroupView>,
}

impl View for LocationRecord {
    type V = LocationRecordView;

    open spec fn view(&self) -> LocationRecordView {
        LocationRecordView {
            country: match self.country {
                Some(c) => Some(c@),
                None => None,
            },
            continent: match self.continent {
                Some(c) => Some(c@),
                None => None,
            },
        }
    }
}

/// The display name filed under `locale` in a names table: the first entry
/// whose locale matches, searched from position `i`.
pub open spec fn spec_name_from(names: Seq<NameEntryView>, locale: Seq<u8>, i: int) -> Option<
    Seq<u8>,
>
    decreases names.len() - i,
    when 0 <= i <= names.len()
{
    if i == names.len() {
        None
    } else if names[i].locale == locale {
        Some(names[i].name)
    } else {
        spec_name_from(names, locale, i + 1)
    }
}

/// The display name filed under `locale` in a names table.
pub open spec fn spec_get_name(names: Seq<NameEntryView>, locale: Seq<u8>) -> Option<Seq<u8>> {
    spec_name_from(names, locale, 0)
}

/// Byte-string equality.
pub fn bytes_eq(a: &[u8], b: &[u8]) -> (r: bool)
    ensures
        r == (a@ == b@),
{
    let n = a.len();
    if n != b.len() {
        return false;
    }
    let mut i: usize = 0;
    while i < n
        invariant
            n == a@.len() == b@.len(),
            i <= n,
            forall|k: int| 0 <= k < i ==> a@[k] == b@[k],
        decreases n - i,
    {
        if a[i] != b[i] {
            return false;
        }
        i += 1;
    }
    proof {
        assert(a@ =~= b@);
    }
    true
}

fn find_name_from<'a>(names: &'a Vec<NameEntry>, locale: &[u8], i: usize) -> (r: Option<
    &'a Vec<u8>,
>)
    requires
        i <= names@.len(),
    ensures
        match r {
            Some(n) => spec_name_from(names@.map_values(|e: NameEntry| e@), locale@, i as int)
                == Some(n@),
            None => spec_name_from(names@.map_values(|e: NameEntry| e@), locale@, i as int)
                is None,
        },
    decreases names@.len() - i,
{
    if i == names.len() {
        None
    } else if bytes_eq(names[i].locale.as_slice(), locale) {
        Some(&names[i].name)
    } else {
        find_name_from(names, locale, i + 1)
    }
}

/// Look a locale up in a names table; returns the first matching entry's
/// display name, exactly as [`spec_get_name`] denotes.
pub fn find_name<'a>(names: &'a Vec<NameEntry>, locale: &[u8]) -> (r: Option<&'a Vec<u8>>)
    ensures
        match r {
            Some(n) => spec_get_name(names@.map_values(|e: NameEntry| e@), locale@) == Some(n@),
            None => spec_get_name(names@.map_values(|e: NameEntry| e@), locale@) is None,
        },
{
    find_name_from(names, locale, 0)
}

/// Copy a byte string; the copy's view is the original's.
pub fn copy_bytes(v: &Vec<u8>) -> (r: Vec<u8>)
    ensures
        r@ == v@,
{
    let n = v.len();
    let mut r: Vec<u8> = Vec::new();
    let mut i: usize = 0;
    while i < n
        invariant
            i <= n,
            n == v@.len(),
            r@ == v@.take(i as int),
        decreases n - i,
    {
        r.push(v[i]);
        proof {
            assert(r@ =~= v@.take(i + 1));
        }
        i += 1;
    }
    proof {
        assert(v@.take(n as int) =~= v@);
    }
    r
}

fn copy_opt_bytes(v: &Option<Vec<u8>>) -> (r: Option<Vec<u8>>)
    ensures
        (match r {
            Some(b) => *v matches Some(o) && b@ == o@,
            None => *v is None,
        }),
{
    match v {
        Some(b) => Some(copy_bytes(b)),
        None => None,
    }
}

fn copy_names(ns: &Vec<NameEntry>) -> (r: Vec<NameEntry>)
    ensures
        r@.map_values(|e: NameEntry| e@) == ns@.map_values(|e: NameEntry| e@),
{
    let n = ns.len();
    let mut r: Vec<NameEntry> = Vec::new();
    let mut i: usize = 0;
    while i < n
        invariant
            i <= n,
            n == ns@.len(),
            r@.len() == i,
            forall|k: int| 0 <= k < i ==> (#[trigger] r@[k])@ == ns@[k]@,
        decreases n - i,
    {
        let e = &ns[i];
        r.push(NameEntry { locale: copy_bytes(&e.locale), name: copy_bytes(&e.name) });
        i += 1;
    }
    proof {
        assert(r@.map_values(|e: NameEntry| e@) =~= ns@.map_values(|e: NameEntry| e@));
    }
    r
}

fn copy_opt_names(ns: &Option<Vec<NameEntry>>) -> (r: Option<Vec<NameEntry>>)
    ensures
        (match r {
            Some(b) => *ns matches Some(o) && b@.map_values(|e: NameEntry| e@)
                == o@.map_values(|e: NameEntry| e@),
            None => *ns is None,
        }),
{
    match ns {
        Some(b) => Some(copy_names(b)),
        None => None,
    }
}

/// Copy a raw record; the copy's view is the original's.
pub fn copy_record(rec: &LocationRecord) -> (r: LocationRecord)
    ensures
        r@ == rec@,
{
    let country = match &rec.country {
        Some(c) => Some(
            CountryGroup { iso_code: copy_opt_bytes(&c.iso_code), names: copy_opt_names(&c.names) },
        ),
        None => None,
    };
    let continent = match &rec.continent {
        Some(c) => Some(ContinentGroup { names: copy_opt_names(&c.names) }),
        None => None,
    };
    LocationRecord { country, continent }
}

} // verus!

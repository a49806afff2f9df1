//! The capability interface to a read-only geolocation dataset, and a
//! verified in-memory dataset for use as a test double.
//!
//! A dataset is modelled as a map from addresses to record views.  A lookup
//! that finds no entry is a normal empty result, never an error; a
//! [`DatasetError`] stands only for a failure of the query itself.

use crate::ip::IpAddress;
use crate::record::{copy_record, LocationRecord, LocationRecordView};
use vstd::prelude::*;

verus! {

/// A failure of the dataset query itself (corrupt data, decode failure).
#[derive(Debug)]
pub struct DatasetError {
    pub detail: Vec<u8>,
}

/// A read-only mapping from IP addresses to hierarchical location records.
///
/// `entries()` is the mathematical content of the dataset; `infallible()`
/// says whether every query on it is guaranteed to succeed.  A lookup must
/// return exactly the modelled entry, or the absence of one; it may fail
/// with a [`DatasetError`] only if the dataset is not infallible.
pub trait GeoDataset {
    /// The dataset's content: which record each address maps to.
    spec fn entries(&self) -> Map<IpAddress, LocationRecordView>;

    /// Whether queries on this dataset can never fail.
    spec fn infallible(&self) -> bool;

    /// Look one parsed address up.  `Ok(None)` means the address has no
    /// entry, a fully successful outcome.
    fn lookup(&self, ip: &IpAddress) -> (r: Result<Option<LocationRecord>, DatasetError>)
        ensures
            (match r {
                Ok(Some(rec)) => self.entries().contains_key(*ip) && rec@ == self.entries()[*ip],
                Ok(None) => !self.entries().contains_key(*ip),
                Err(_) => true,
            }),
            self.infallible() ==> r is Ok,
    ;
}

/// The map denoted by a list of address/record pairs; an earlier pair
/// shadows a later one with the same address.
pub open spec fn entries_of(s: Seq<(IpAddress, LocationRecord)>) -> Map<
    IpAddress,
    LocationRecordView,
>
    decreases s.len(),
{
    if s.len() == 0 {
        Map::empty()
    } else {
        entries_of(s.skip(1)).insert(s[0].0, s[0].1@)
    }
}

pub proof fn lemma_entries_of_skip(s: Seq<(IpAddress, LocationRecord)>, i: int, ip: IpAddress)
    requires
        0 <= i <= s.len(),
        forall|j: int| 0 <= j < i ==> (#[trigger] s[j]).0 != ip,
    ensures
        entries_of(s).contains_key(ip) == entries_of(s.skip(i)).contains_key(ip),
        entries_of(s).contains_key(ip) ==> entries_of(s)[ip] == entries_of(s.skip(i))[ip],
    decreases i,
{
    if i > 0 {
        lemma_entries_of_skip(s.skip(1), i - 1, ip);
        assert(s.skip(1).skip(i - 1) =~= s.skip(i));
    } else {
        assert(s.skip(0) =~= s);
    }
}

/// An in-memory dataset: a list of address/record pairs, searched front to
/// back, so that a later insertion wins over an earlier one.
pub struct MemoryDataset {
    entries: Vec<(IpAddress, LocationRecord)>,
}

impl MemoryDataset {
    /// An empty dataset.
    pub fn new() -> (r: MemoryDataset)
        ensures
            r.entries() == Map::<IpAddress, LocationRecordView>::empty(),
            r.infallible(),
    {
        MemoryDataset { entries: Vec::new() }
    }

    /// Add an entry; it replaces any earlier entry for the same address.
    pub fn add(&mut self, ip: IpAddress, rec: LocationRecord)
        ensures
            final(self).entries() == old(self).entries().insert(ip, rec@),
            final(self).infallible(),
    {
        let ghost oldv = self.entries@;
        let ghost recv = rec@;
        self.entries.insert(0, (ip, rec));
        proof {
            assert(self.entries@.skip(1) =~= oldv);
            assert(entries_of(self.entries@) == entries_of(oldv).insert(ip, recv));
        }
    }
}

impl GeoDataset for MemoryDataset {
    closed spec fn entries(&self) -> Map<IpAddress, LocationRecordView> {
        entries_of(self.entries@)
    }

    closed spec fn infallible(&self) -> bool {
        true
    }

    fn lookup(&self, ip: &IpAddress) -> (r: Result<Option<LocationRecord>, DatasetError>) {
        let n = self.entries.len();
        let mut i: usize = 0;
        while i < n
            invariant
                i <= n,
                n == self.entries@.len(),
                forall|j: int| 0 <= j < i ==> (#[trigger] self.entries@[j]).0 != *ip,
            decreases n - i,
        {
            let e = &self.entries[i];
            if e.0 == *ip {
                proof {
                    lemma_entries_of_skip(self.entries@, i as int, *ip);
                    assert(self.entries@.skip(i as int).len() > 0);
                    assert(self.entries@.skip(i as int)[0] == self.entries@[i as int]);
                }
                return Ok(Some(copy_record(&e.1)));
            }
            i += 1;
        }
        proof {
            lemma_entries_of_skip(self.entries@, n as int, *ip);
            assert(self.entries@.skip(n as int) =~= Seq::<(IpAddress, LocationRecord)>::empty());
        }
        Ok(None)
    }
}

} // verus!

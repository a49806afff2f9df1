//! Rendering a resolved location as a JSON object.
//!
//! The empty outcome renders as `{}`; a found location renders as an object
//! with the keys `country`, `country_code` and `continent`, in that order.
//! String values are escaped: quote and backslash get a backslash, the
//! common control characters get their short escapes, and any other control
//! character becomes a `\u00..` sequence.  Bytes outside the ASCII range
//! pass through unchanged, so UTF-8 text is preserved.

use crate::dataset::GeoDataset;
use crate::resolver::{resolve, spec_resolve, ResolveError, ResolvedLocation, ResolvedLocationView};
use vstd::prelude::*;

verus! {

/// The hex digit (lower case) for a nibble.
pub open spec fn hex_char(n: int) -> u8 {
    if n < 10 {
        (48 + n) as u8
    } else {
        (87 + n) as u8
    }
}

/// How one byte of a string value is written inside a JSON string.
pub open spec fn escape_byte(b: u8) -> Seq<u8> {
    if b == 34 {
        seq![92u8, 34u8]
    } else if b == 92 {
        seq![92u8, 92u8]
    } else if b == 10 {
        seq![92u8, 110u8]
    } else if b == 13 {
        seq![92u8, 114u8]
    } else if b == 9 {
        seq![92u8, 116u8]
    } else if b < 32 {
        seq![92u8, 117u8, 48u8, 48u8, hex_char(b as int / 16), hex_char(b as int % 16)]
    } else {
        seq![b]
    }
}

/// A byte string escaped for inclusion in a JSON string.
pub open spec fn spec_escape(s: Seq<u8>) -> Seq<u8>
    decreases s.len(),
{
    if s.len() == 0 {
        Seq::empty()
    } else {
        spec_escape(s.drop_last()) + escape_byte(s.last())
    }
}

/// A byte string as a JSON string: quoted and escaped.
pub open spec fn spec_quoted(s: Seq<u8>) -> Seq<u8> {
    seq![34u8] + spec_escape(s) + seq![34u8]
}

/// The bytes `"country":` (keys contain nothing to escape).
pub open spec fn key_country() -> Seq<u8> {
    seq![34u8, 99u8, 111u8, 117u8, 110u8, 116u8, 114u8, 121u8, 34u8, 58u8]
}

/// The bytes `"country_code":`.
pub open spec fn key_country_code() -> Seq<u8> {
    seq![
        34u8,
        99u8,
        111u8,
        117u8,
        110u8,
        116u8,
        114u8,
        121u8,
        95u8,
        99u8,
        111u8,
        100u8,
        101u8,
        34u8,
        58u8,
    ]
}

/// The bytes `"continent":`.
pub open spec fn key_continent() -> Seq<u8> {
    seq![34u8, 99u8, 111u8, 110u8, 116u8, 105u8, 110u8, 101u8, 110u8, 116u8, 34u8, 58u8]
}

/// The JSON rendering of a resolved location.
pub open spec fn spec_render(v: ResolvedLocationView) -> Seq<u8> {
    match v {
        ResolvedLocationView::Empty => seq![123u8, 125u8],
        ResolvedLocationView::Found { country, country_code, continent } => seq![123u8]
            + key_country() + spec_quoted(country) + seq![44u8] + key_country_code()
            + spec_quoted(country_code) + seq![44u8] + key_continent() + spec_quoted(continent)
            + seq![125u8],
    }
}

fn hex_char_of(n: u8) -> (c: u8)
    requires
        n < 16,
    ensures
        c == hex_char(n as int),
{
    if n < 10 {
        48 + n
    } else {
        87 + n
    }
}

/// Append the escaped form of `v` to `out`.
fn escape_into(out: &mut Vec<u8>, v: &[u8])
    ensures
        final(out)@ == old(out)@ + spec_escape(v@),
{
    let ghost base = out@;
    let n = v.len();
    let mut i: usize = 0;
    while i < n
        invariant
            i <= n,
            n == v@.len(),
            out@ == base + spec_escape(v@.take(i as int)),
        decreases n - i,
    {
        let ghost before = out@;
        let b = v[i];
        if b == 34 {
            out.push(92);
            out.push(34);
        } else if b == 92 {
            out.push(92);
            out.push(92);
        } else if b == 10 {
            out.push(92);
            out.push(110);
        } else if b == 13 {
            out.push(92);
            out.push(114);
        } else if b == 9 {
            out.push(92);
            out.push(116);
        } else if b < 32 {
            out.push(92);
            out.push(117);
            out.push(48);
            out.push(48);
            out.push(hex_char_of(b / 16));
            out.push(hex_char_of(b % 16));
        } else {
            out.push(b);
        }
        proof {
            assert(out@ =~= before + escape_byte(v@[i as int]));
            assert(v@.take(i + 1).drop_last() =~= v@.take(i as int));
            assert(v@.take(i + 1).last() == v@[i as int]);
            assert(out@ =~= base + spec_escape(v@.take(i + 1)));
        }
        i += 1;
    }
    proof {
        assert(v@.take(n as int) =~= v@);
    }
}

/// Append a quoted, escaped JSON string to `out`.
fn quote_into(out: &mut Vec<u8>, v: &[u8])
    ensures
        final(out)@ == old(out)@ + spec_quoted(v@),
{
    let ghost base = out@;
    out.push(34);
    escape_into(out, v);
    out.push(34);
    proof {
        assert(out@ =~= base + spec_quoted(v@));
    }
}

/// Render a resolved location as JSON bytes, exactly as [`spec_render`]
/// denotes: `{}` for the empty outcome, the three-field object otherwise.
pub fn render_json(loc: &ResolvedLocation) -> (out: Vec<u8>)
    ensures
        out@ == spec_render(loc@),
{
    let mut out: Vec<u8> = Vec::new();
    match loc {
        ResolvedLocation::Empty => {
            out.push(123);
            out.push(125);
            proof {
                assert(out@ =~= spec_render(loc@));
            }
        },
        ResolvedLocation::Found { country, country_code, continent } => {
            out.push(123);
            out.push(34);
            out.push(99);
            out.push(111);
            out.push(117);
            out.push(110);
            out.push(116);
            out.push(114);
            out.push(121);
            out.push(34);
            out.push(58);
            proof {
                assert(out@ =~= seq![123u8] + key_country());
            }
            quote_into(&mut out, country.as_slice());
            out.push(44);
            out.push(34);
            out.push(99);
            out.push(111);
            out.push(117);
            out.push(110);
            out.push(116);
            out.push(114);
            out.push(121);
            out.push(95);
            out.push(99);
            out.push(111);
            out.push(100);
            out.push(101);
            out.push(34);
            out.push(58);
            proof {
                assert(out@ =~= seq![123u8] + key_country() + spec_quoted(country@) + seq![44u8]
                    + key_country_code());
            }
            quote_into(&mut out, country_code.as_slice());
            out.push(44);
            out.push(34);
            out.push(99);
            out.push(111);
            out.push(110);
            out.push(116);
            out.push(105);
            out.push(110);
            out.push(101);
            out.push(110);
            out.push(116);
            out.push(34);
            out.push(58);
            proof {
                assert(out@ =~= seq![123u8] + key_country() + spec_quoted(country@) + seq![44u8]
                    + key_country_code() + spec_quoted(country_code@) + seq![44u8]
                    + key_continent());
            }
            quote_into(&mut out, continent.as_slice());
            out.push(125);
            proof {
                assert(out@ =~= spec_render(loc@));
            }
        },
    }
    out
}

/// Resolve a textual address against a dataset and render the outcome as
/// JSON bytes.
///
/// On an infallible dataset the bytes are a pure function of the dataset's
/// content and the input text — [`spec_render`] of [`spec_resolve`] — so
/// repeated calls with the same input produce byte-identical output.
pub fn resolve_json<D: GeoDataset>(ds: &D, ip_text: &[u8]) -> (r: Result<Vec<u8>, ResolveError>)
    ensures
        (match r {
            Ok(out) => spec_resolve(ds.entries(), ip_text@) matches Ok(v) && out@ == spec_render(
                v,
            ),
            Err(e) => e == ResolveError::DatasetFailure || spec_resolve(ds.entries(), ip_text@)
                == Err::<ResolvedLocationView, ResolveError>(e),
        }),
        ds.infallible() ==> (match r {
            Ok(out) => spec_resolve(ds.entries(), ip_text@) matches Ok(v) && out@ == spec_render(
                v,
            ),
            Err(e) => spec_resolve(ds.entries(), ip_text@) == Err::<
                ResolvedLocationView,
                ResolveError,
            >(e),
        }),
{
    match resolve(ds, ip_text) {
        Ok(loc) => Ok(render_json(&loc)),
        Err(e) => Err(e),
    }
}

} // verus!

//! Resolution of textual IP addresses to geographic location data.
//!
//! The library parses IPv4/IPv6 address text, looks the address up in a
//! read-only geolocation dataset reached through the [`dataset::GeoDataset`]
//! capability trait, projects the raw hierarchical record into a flat
//! three-field result, and renders that result as a JSON object.

pub mod dataset;
pub mod ip;
pub mod json;
pub mod record;
pub mod resolver;

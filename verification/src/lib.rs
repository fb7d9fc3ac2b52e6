//! Incremental harvesting of paginated comment data for a catalog of
//! products.
//!
//! The library holds the decisions of a harvesting run and leaves the
//! waiting to its caller. [`walker`] says which batch of catalog items to ask
//! for next; [`paginator`] says which page of an item to fetch next and when
//! to stop; [`request`] gives the address of a page; [`page`] turns what a
//! fetch gave into records, by way of [`transcode`] and [`extractor`]; and
//! [`sink`] says what to ask of the record sink for each record and counts
//! what it took. [`document`] is the tree of values that records are made
//! of, [`text`] writes numbers, and [`settings`] is what a run is configured
//! with.

pub mod document;
pub mod extractor;
pub mod page;
pub mod paginator;
pub mod request;
pub mod settings;
pub mod sink;
pub mod text;
pub mod transcode;
pub mod walker;

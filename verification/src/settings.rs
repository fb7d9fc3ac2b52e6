//! Startup configuration consumed by the harvesting run.

use vstd::prelude::*;

verus! {

/// Connection string of the catalog source.
#[derive(Debug)]
pub struct MySQL {
    pub url: String,
}

/// Location of the record sink.
#[derive(Debug)]
pub struct MongoDB {
    pub host: String,
    pub port: u16,
    pub db: String,
    pub collection: String,
}

/// Tuning of the run itself.
#[derive(Debug)]
pub struct App {
    pub page_size: u32,
}

/// Everything the run is configured with.
#[derive(Debug)]
pub struct Settings {
    pub mysql: MySQL,
    pub mongodb: MongoDB,
    pub app: App,
}

} // verus!

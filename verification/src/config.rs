//! The settings that the service is started with.

use vstd::prelude::*;

verus! {

/// The base URL that is used where none is configured.
pub open spec fn default_base_url() -> Seq<char> {
    "http://127.0.0.1:3000"@
}

/// Where the mappings are kept, and what short links begin with.
#[derive(Clone, Debug)]
pub struct Config {
    pub database_url: String,
    pub base_url: String,
}

impl Config {
    /// The settings for a given database location; the base URL falls back
    /// to the default where none is given.
    pub fn new(database_url: String, base_url: Option<String>) -> (config: Config)
        ensures
            config.database_url == database_url,
            config.base_url@ == match base_url {
                Some(text) => text@,
                None => default_base_url(),
            },
    {
        let base_url = match base_url {
            Some(text) => text,
            None => "http://127.0.0.1:3000".to_owned(),
        };
        Config { database_url, base_url }
    }
}

} // verus!

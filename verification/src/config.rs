//! What the service is started with.

use vstd::prelude::*;

verus! {

/// The port to listen on and the file that holds the database.
#[derive(Debug, PartialEq, Eq)]
pub struct Config {
    pub port: u16,
    pub database: String,
}

impl Config {
    /// The settings used where none are given: port 3000 and the file
    /// `store.db`.
    pub fn new() -> (c: Config)
        ensures
            c.port == 3000,
            c.database@ == "store.db"@,
    {
        Config { port: 3000, database: "store.db".to_owned() }
    }

    /// The address of the database: `sqlite://` followed by the file's path.
    pub fn database_url(&self) -> (url: String)
        ensures
            url@ == "sqlite://"@ + self.database@,
    {
        "sqlite://".to_owned().concat(self.database.as_str())
    }
}

} // verus!

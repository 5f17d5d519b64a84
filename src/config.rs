use vstd::prelude::*;

verus! {

/// The port the server listens on unless configured otherwise.
pub const DEFAULT_PORT: u16 = 8000;

/// Process configuration: where the store lives and how tokens are signed.
#[derive(Clone, Debug)]
pub struct Config {
    pub database_url: String,
    pub jwt_secret: String,
    /// Lifetime of an issued token, in seconds.
    pub jwt_maxage: i64,
    pub port: u16,
}

impl Config {
    /// A configuration from values already read from the environment, on
    /// the default port.
    pub fn from_values(database_url: String, jwt_secret: String, jwt_maxage: i64) -> (r: Config)
        ensures
            r.database_url@ == database_url@,
            r.jwt_secret@ == jwt_secret@,
            r.jwt_maxage == jwt_maxage,
            r.port == DEFAULT_PORT,
    {
        Config { database_url, jwt_secret, jwt_maxage, port: DEFAULT_PORT }
    }
}

} // verus!

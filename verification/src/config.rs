//! Process-wide configuration, read once at startup and passed explicitly.
//! An absent signing secret or database address is a fatal startup
//! condition, never a per-request error.

use vstd::prelude::*;

use crate::errors::ConfigError;

verus! {

/// The immutable process-wide configuration.
#[derive(Debug, PartialEq, Eq, Clone)]
pub struct Config {
    pub mongo_uri: String,
    pub jwt_secret: String,
}

impl Config {
    /// Build the configuration from the two environment-sourced values,
    /// failing fast when either is absent (empty). The database address is
    /// demanded first.
    pub fn init(mongo_uri: String, jwt_secret: String) -> (r: Result<Config, ConfigError>)
        ensures
            r matches Ok(c) ==> c.mongo_uri@ == mongo_uri@ && c.jwt_secret@ == jwt_secret@
                && mongo_uri@.len() > 0 && jwt_secret@.len() > 0,
            mongo_uri@.len() == 0 <==> r == Err::<Config, ConfigError>(
                ConfigError::MissingMongoUri,
            ),
            mongo_uri@.len() > 0 && jwt_secret@.len() == 0 <==> r == Err::<Config, ConfigError>(
                ConfigError::MissingJwtSecret,
            ),
    {
        if mongo_uri.as_str().is_empty() {
            return Err(ConfigError::MissingMongoUri);
        }
        if jwt_secret.as_str().is_empty() {
            return Err(ConfigError::MissingJwtSecret);
        }
        Ok(Config { mongo_uri, jwt_secret })
    }
}

} // verus!

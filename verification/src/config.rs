//! The CLI's persisted configuration: the JWT of the authenticated
//! account, if any. Loading and saving the file are the caller's concern;
//! the state transitions live here.

use vstd::prelude::*;

verus! {

/// The persisted configuration.
pub struct Config {
    /// The JWT of the authenticated account, if any.
    pub jwt: Option<String>,
}

impl Config {
    /// A configuration with no credentials, as a first run starts with.
    pub fn new() -> (c: Self)
        ensures
            c.jwt.is_none(),
    {
        Config { jwt: None }
    }

    /// Stores a freshly obtained JWT.
    pub fn set_jwt(&mut self, jwt: String)
        ensures
            final(self).jwt == Some(jwt),
    {
        self.jwt = Some(jwt);
    }

    /// Discards the stored JWT, as happens when the server rejects it.
    pub fn clear_jwt(&mut self)
        ensures
            final(self).jwt.is_none(),
    {
        self.jwt = None;
    }
}

} // verus!

//! The configuration of the server.

use vstd::prelude::*;

verus! {

pub struct PostgresCfg {
    /// PostgreSQL server hostname
    pub hostname: String,
    /// PostgreSQL username
    pub user: String,
    /// PostgreSQL password (for specified user)
    pub password: String,
}

pub struct DatabaseCfg {
    /// Database URL
    pub url: String,
}

/// The host of the PostgreSQL server where none is configured.
pub fn default_postgres_host() -> (host: String)
    ensures
        host@ == "localhost"@,
{
    "localhost".to_owned()
}

pub struct DomainCfg {
    /// Domain name
    pub name: String,
    pub tls_settings: TlsSettings,
    pub users: Vec<String>,
}

#[derive(PartialEq, Eq, Debug, Clone, Copy, Structural)]
pub enum TlsSettings {
    Disabled,
}

impl Default for TlsSettings {
    fn default() -> (settings: Self)
        ensures
            settings == TlsSettings::Disabled,
    {
        Self::Disabled
    }
}

} // verus!

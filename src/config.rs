//! Defaults of the hosting service's configuration.
use vstd::prelude::*;

use vstd::string::StringExecFns;

verus! {

pub const DEFAULT_API_PORT: u16 = 19156;

pub const DEFAULT_MAX_DATABASE_CONNECTIONS: u32 = 5;

pub fn default_api_port() -> (r: u16)
    ensures
        r == 19156,
{
    DEFAULT_API_PORT
}

pub fn default_max_database_connections() -> (r: u32)
    ensures
        r == 5,
{
    DEFAULT_MAX_DATABASE_CONNECTIONS
}

pub fn default_log_level() -> (r: String)
    ensures
        r@ == "debug"@,
{
    String::from_str("debug")
}

pub fn default_sqlite_db_url() -> (r: String)
    ensures
        r@ == "sqlite://database.db"@,
{
    String::from_str("sqlite://database.db")
}

} // verus!

use vstd::prelude::*;

verus! {

/// Process settings the core reads: where the cache lives and its
/// time-to-live; the bind address and log level are for the surrounding
/// service.
#[derive(Debug, Clone)]
pub struct Settings {
    pub bind_address: String,
    pub storage_path: String,
    pub log_level: String,
    pub cache_ttl: u64,
}

pub fn default_bind_address() -> (r: String)
    ensures
        r@ == "127.0.0.1:8080"@,
{
    String::from_str("127.0.0.1:8080")
}

pub fn default_storage_path() -> (r: String)
    ensures
        r@ == "./storage"@,
{
    String::from_str("./storage")
}

pub fn default_log_level() -> (r: String)
    ensures
        r@ == "info"@,
{
    String::from_str("info")
}

pub fn default_cache_ttl() -> (r: u64)
    ensures
        r == 3600,
{
    3600
}

impl Settings {
    /// Settings with every value at its default.
    pub fn defaults() -> (r: Settings)
        ensures
            r.bind_address@ == "127.0.0.1:8080"@,
            r.storage_path@ == "./storage"@,
            r.log_level@ == "info"@,
            r.cache_ttl == 3600,
    {
        Settings {
            bind_address: default_bind_address(),
            storage_path: default_storage_path(),
            log_level: default_log_level(),
            cache_ttl: default_cache_ttl(),
        }
    }
}

} // verus!

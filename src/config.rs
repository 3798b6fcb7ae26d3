//! The process-wide configuration, as plain values.
use vstd::prelude::*;

verus! {

/// The whole configuration file.
pub struct Config {
    pub orbit: Orbit,
}

/// Settings of the emulated service.
pub struct Orbit {
    /// Product name; names the roaming saves directory.
    pub name: String,
    pub product_id: u32,
    /// `<default>`, `<roaming>`, or the path of the saves directory.
    pub saves: String,
    pub cd_keys: Vec<String>,
    pub log: Log,
    pub profile: Profile,
}

/// Where the log goes, if anywhere.
pub struct Log {
    pub write: bool,
    pub path: String,
}

/// The static profile served to every login-details request.
pub struct Profile {
    pub account_id: String,
    pub username: String,
    pub password: String,
}

} // verus!

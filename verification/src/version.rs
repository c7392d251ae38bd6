//! The version command.
use vstd::prelude::*;
use vstd::string::*;

verus! {

/// What comes before the version number.
pub const VERSION_PREFIX: &'static str = "Bibot v";

/// Prints this bot's version, given the package version.
pub fn version(package_version: &str) -> (r: String)
    ensures
        r@ == VERSION_PREFIX@ + package_version@,
{
    String::from_str(VERSION_PREFIX).concat(package_version)
}

} // verus!

//! User preferences. Reading and writing the JSON file is done by the
//! caller; this module holds the values and their defaults.

use vstd::prelude::*;

verus! {

/// Persisted user preferences. A field missing from the file takes its
/// default.
#[derive(Debug, Clone)]
pub struct Config {
    /// Whether to start DHCP when sharing begins (the user's intent; the
    /// app still checks for dnsmasq).
    pub dhcp_enabled: bool,
    /// Whether to start NAT-PMP when sharing begins.
    pub natpmp_enabled: bool,
    /// Custom DNS server override (`None`: detect from VPN or system).
    pub custom_dns: Option<String>,
}

/// The default of the on/off preferences.
pub fn default_true() -> (b: bool)
    ensures
        b,
{
    true
}

impl Config {
    /// DHCP and NAT-PMP on, DNS detected.
    pub fn defaults() -> (c: Config)
        ensures
            c.dhcp_enabled,
            c.natpmp_enabled,
            c.custom_dns is None,
    {
        Config { dhcp_enabled: default_true(), natpmp_enabled: default_true(), custom_dns: None }
    }
}

impl Default for Config {
    fn default() -> (c: Config)
        ensures
            c.dhcp_enabled,
            c.natpmp_enabled,
            c.custom_dns is None,
    {
        Config::defaults()
    }
}

} // verus!

//! The configuration, and the values it takes where the file says nothing.

use vstd::prelude::*;
use vstd::string::*;
use crate::error::{Error, ErrorView};
use crate::text::texts;

verus! {

/// How long the HTTP client waits for a response, in seconds.
pub const CLIENT_TIMEOUT_SECS: u64 = 15;

/// How the HTTP client names itself.
pub const USER_AGENT: &'static str = "cloudflare-subdomain-updater/0.2";

/// The environment variable that names the configuration file.
pub const CONFIG_VARIABLE: &'static str = "IONOS_UPDATER_CONFIG";

/// The configuration of the updater.
#[derive(Debug)]
pub struct Config {
    /// API token with permission to edit the DNS records of the zone.
    pub cloudflare_api_token: String,
    /// ID of the zone.
    pub cloudflare_zone_id: String,
    /// Name of the zone, for the log.
    pub cloudflare_zone_name: String,
    /// Names of the A records to keep in sync with the public address.
    /// Records that do not exist are created.
    pub managed_records: Vec<String>,
    /// Whether Cloudflare answers for the records itself.
    pub proxied: bool,
    /// Seconds from one heartbeat to the next.
    pub heartbeat_interval_secs: u64,
    /// Minimum seconds between two updates of the managed records.
    pub publish_rate_limit_secs: u64,
    /// The providers to ask for the public address.
    pub ip_providers: Vec<String>,
    /// Seconds that one provider is given.
    pub provider_timeout_secs: u64,
    /// Seconds after which the race stops waiting for a first answer.
    pub race_deadline_secs: u64,
    /// Where the state is kept.
    pub state_file: String,
    /// Where the health server listens.
    pub health_addr: String,
    /// Seconds after which the records are published again although nothing
    /// has changed; 0 for never.
    pub force_republish_secs: u64,
    /// The authoritative name servers of the zone. After a publication they are
    /// asked whether they show it, and while one of them does not, the next
    /// heartbeat publishes again.
    pub authoritative_ns: Vec<String>,
    /// Seconds that one question to a name server is given.
    pub ns_check_timeout_secs: u64,
    /// How many publications in a row that some name server does not show lift
    /// the rate limit and are repeated.
    pub max_ns_inconsistency_cycles: u32,
}

impl Config {
    /// Whether there is something to keep in sync.
    pub fn check(&self) -> (r: Result<(), Error>)
        ensures
            r is Ok <==> self.managed_records@.len() > 0,
            r matches Err(error) ==> error@ == ErrorView::NoManagedRecords,
    {
        if self.managed_records.len() == 0 {
            Err(Error::NoManagedRecords)
        } else {
            Ok(())
        }
    }
}

/// The configuration file to read, given the value of the environment variable.
pub fn config_path(variable: Option<String>) -> (r: String)
    ensures
        r@ == (match variable {
            Some(path) => path@,
            None => "/data/config.json"@,
        }),
{
    match variable {
        Some(path) => path,
        None => "/data/config.json".to_owned(),
    }
}

pub fn default_heartbeat_interval_secs() -> (r: u64)
    ensures
        r == 60,
{
    60
}

pub fn default_publish_rate_limit_secs() -> (r: u64)
    ensures
        r == 30,
{
    30
}

pub fn default_ip_providers() -> (r: Vec<String>)
    ensures
        texts(r@) == seq![
            "ifconfig.co"@,
            "api.ipify.org"@,
            "ident.me"@,
            "icanhazip.com"@,
            "checkip.amazonaws.com"@,
        ],
{
    let mut r: Vec<String> = Vec::new();
    r.push("ifconfig.co".to_owned());
    r.push("api.ipify.org".to_owned());
    r.push("ident.me".to_owned());
    r.push("icanhazip.com".to_owned());
    r.push("checkip.amazonaws.com".to_owned());
    r
}

pub fn default_provider_timeout_secs() -> (r: u64)
    ensures
        r == 3,
{
    3
}

pub fn default_race_deadline_secs() -> (r: u64)
    ensures
        r == 5,
{
    5
}

pub fn default_state_file() -> (r: String)
    ensures
        r@ == "/data/state.json"@,
{
    "/data/state.json".to_owned()
}

pub fn default_health_addr() -> (r: String)
    ensures
        r@ == "0.0.0.0:8080"@,
{
    "0.0.0.0:8080".to_owned()
}

pub fn default_force_republish_secs() -> (r: u64)
    ensures
        r == 21600,
{
    21600
}

/// A pair of name servers that Cloudflare often assigns. The pair of a zone is
/// shown in its dashboard.
pub fn default_authoritative_ns() -> (r: Vec<String>)
    ensures
        texts(r@) == seq![
            "karl.ns.cloudflare.com"@,
            "vera.ns.cloudflare.com"@,
        ],
{
    let mut r: Vec<String> = Vec::new();
    r.push("karl.ns.cloudflare.com".to_owned());
    r.push("vera.ns.cloudflare.com".to_owned());
    r
}

pub fn default_ns_check_timeout_secs() -> (r: u64)
    ensures
        r == 5,
{
    5
}

pub fn default_max_ns_inconsistency_cycles() -> (r: u32)
    ensures
        r == 10,
{
    10
}

} // verus!

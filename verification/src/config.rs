//! The settings of the server and their default values.
use crate::text_map::TextMap;
use vstd::prelude::*;

verus! {

/// The settings of the server. `listen` is a socket address in its usual
/// notation.
#[derive(Debug, Clone)]
pub struct Config {
    pub listen: String,
    pub websocket_path: String,
    pub websocket_subprotocol: String,
    pub route_without_affiliations: bool,
    pub fallback_broadcast_when_no_affiliations: bool,
    pub allow_multiple_calls_per_group: bool,
    pub higher_priority_number_wins: bool,
    pub preempt_cause: u8,
    pub auth: AuthConfig,
    pub tls: TlsConfig,
    pub aprs: AprsConfig,
}

/// The settings of the APRS gateway.
#[derive(Debug, Clone)]
pub struct AprsConfig {
    pub enabled: bool,
    pub talkgroup: u32,
    pub server: String,
    pub port: u16,
    pub login_callsign: String,
    pub passcode: i32,
    pub users_file: String,
    pub symbol_table: char,
    pub symbol: char,
    pub reconnect_seconds: u64,
    pub users_reload_seconds: u64,
}

/// Where the TLS certificate chain and key are found.
#[derive(Debug, Clone)]
pub struct TlsConfig {
    pub enabled: bool,
    pub cert_path: String,
    pub key_path: String,
}

/// The settings of HTTP authentication. `users` maps names to passwords.
#[derive(Debug, Clone)]
pub struct AuthConfig {
    pub enabled: bool,
    pub realm: String,
    pub users: TextMap<String>,
    pub session_ttl_seconds: u64,
}

impl AprsConfig {
    /// The values that hold where nothing else is configured.
    pub open spec fn is_default(self) -> bool {
        &&& self.enabled == false
        &&& self.talkgroup == 200999
        &&& self.server@ == "euro.aprs2.net"@
        &&& self.port == 14580
        &&& self.login_callsign@ == "N0CALL"@
        &&& self.passcode == -1
        &&& self.users_file@ == "users.json"@
        &&& self.symbol_table == '/'
        &&& self.symbol == '>'
        &&& self.reconnect_seconds == 15
        &&& self.users_reload_seconds == 60
    }
}

impl Default for AprsConfig {
    fn default() -> (r: Self)
        ensures
            r.is_default(),
    {
        AprsConfig {
            enabled: false,
            talkgroup: 200999,
            server: "euro.aprs2.net".to_owned(),
            port: 14580,
            login_callsign: "N0CALL".to_owned(),
            passcode: -1,
            users_file: "users.json".to_owned(),
            symbol_table: '/',
            symbol: '>',
            reconnect_seconds: 15,
            users_reload_seconds: 60,
        }
    }
}

impl TlsConfig {
    /// The values that hold where nothing else is configured.
    pub open spec fn is_default(self) -> bool {
        &&& self.enabled == false
        &&& self.cert_path@ == "cert.pem"@
        &&& self.key_path@ == "key.pem"@
    }
}

impl Default for TlsConfig {
    fn default() -> (r: Self)
        ensures
            r.is_default(),
    {
        TlsConfig {
            enabled: false,
            cert_path: "cert.pem".to_owned(),
            key_path: "key.pem".to_owned(),
        }
    }
}

impl AuthConfig {
    /// The values that hold where nothing else is configured.
    pub open spec fn is_default(self) -> bool {
        &&& self.enabled == false
        &&& self.realm@ == "brew-server"@
        &&& self.users@ == Map::<Seq<char>, String>::empty()
        &&& self.session_ttl_seconds == 300
    }
}

impl Default for AuthConfig {
    fn default() -> (r: Self)
        ensures
            r.is_default(),
    {
        AuthConfig {
            enabled: false,
            realm: "brew-server".to_owned(),
            users: TextMap::new(),
            session_ttl_seconds: 300,
        }
    }
}

impl Config {
    /// The values that hold where nothing else is configured.
    pub open spec fn is_default(self) -> bool {
        &&& self.listen@ == "0.0.0.0:9000"@
        &&& self.websocket_path@ == "/brew"@
        &&& self.websocket_subprotocol@ == "brew"@
        &&& self.route_without_affiliations == false
        &&& self.fallback_broadcast_when_no_affiliations == true
        &&& self.allow_multiple_calls_per_group == false
        &&& self.higher_priority_number_wins == true
        &&& self.preempt_cause == 1
        &&& self.auth.is_default()
        &&& self.tls.is_default()
        &&& self.aprs.is_default()
    }
}

impl Default for Config {
    fn default() -> (r: Self)
        ensures
            r.is_default(),
    {
        Config {
            listen: "0.0.0.0:9000".to_owned(),
            websocket_path: "/brew".to_owned(),
            websocket_subprotocol: "brew".to_owned(),
            route_without_affiliations: false,
            fallback_broadcast_when_no_affiliations: true,
            allow_multiple_calls_per_group: false,
            higher_priority_number_wins: true,
            preempt_cause: 1,
            auth: AuthConfig::default(),
            tls: TlsConfig::default(),
            aprs: AprsConfig::default(),
        }
    }
}

impl Config {
    /// The settings of the configuration file as it was found and read, or the
    /// defaults where there is no file.
    pub fn load<E>(found: Option<Result<Config, E>>) -> (r: Result<Config, E>)
        ensures
            match found {
                Some(read) => r == read,
                None => r matches Ok(config) && config.is_default(),
            },
    {
        match found {
            Some(read) => read,
            None => Ok(Config::default()),
        }
    }
}

/// The default settings, one by one.
pub proof fn law_defaults(config: Config)
    requires
        config.is_default(),
    ensures
        config.listen@ == "0.0.0.0:9000"@,
        config.websocket_path@ == "/brew"@,
        config.websocket_subprotocol@ == "brew"@,
        !config.route_without_affiliations,
        config.fallback_broadcast_when_no_affiliations,
        !config.allow_multiple_calls_per_group,
        config.higher_priority_number_wins,
        config.preempt_cause == 1,
        !config.auth.enabled,
        config.auth.realm@ == "brew-server"@,
        forall|name: Seq<char>| !#[trigger] config.auth.users@.contains_key(name),
        config.auth.session_ttl_seconds == 300,
        !config.tls.enabled,
        config.tls.cert_path@ == "cert.pem"@,
        config.tls.key_path@ == "key.pem"@,
        !config.aprs.enabled,
        config.aprs.talkgroup == 200999,
        config.aprs.server@ == "euro.aprs2.net"@,
        config.aprs.port == 14580,
        config.aprs.login_callsign@ == "N0CALL"@,
        config.aprs.passcode == -1,
        config.aprs.users_file@ == "users.json"@,
        config.aprs.symbol_table == '/',
        config.aprs.symbol == '>',
        config.aprs.reconnect_seconds == 15,
        config.aprs.users_reload_seconds == 60,
{
}

} // verus!

//! What a client is told before it connects.
use vstd::prelude::*;

use crate::soulseek::server_address::PeerAddress;
use crate::time::Duration;

verus! {

/// The port on which peers reach us unless another is set.
pub const DEFAULT_LISTEN_PORT: u32 = 2234;

/// TCP keepalive settings.
#[derive(Debug, Clone, Copy, PartialEq, Eq, Structural)]
pub enum KeepAliveSettings {
    Enabled {
        /// The idle time before a keepalive packet is sent.
        idle: Duration,
        /// The time between keepalive packets.
        interval: Duration,
        /// How many packets go unanswered before the connection counts as dead.
        count: u32,
        /// The longest idle time before the connection counts as dead.
        max_idle: Duration,
    },
    Disabled,
}

/// Whether and how to connect again after the connection was lost.
#[derive(Debug, Clone, Copy, PartialEq, Eq, Structural)]
pub enum ReconnectSettings {
    Disabled,
    EnabledExponentialBackoff {
        min_delay: Duration,
        max_delay: Duration,
        /// The most attempts; without a limit where `None`.
        max_attempts: Option<u32>,
    },
}

/// How many searches may be issued in a period.
#[derive(Debug, Clone, Copy, PartialEq, Eq, Structural)]
pub struct SearchRateLimitSettings {
    pub searches: u32,
    pub per_period: Duration,
}

/// How many downloads may run at a time.
#[derive(Debug, Clone, Copy, PartialEq, Eq, Structural)]
pub struct DownloadRateLimitSettings {
    pub concurrent_downloads: u32,
}

/// A text that crosses the network unencrypted, as Soulseek sends names and
/// passwords.
#[derive(Debug)]
pub struct PlainTextUnencrypted(pub String);

impl Clone for PlainTextUnencrypted {
    fn clone(&self) -> (r: Self)
        ensures
            r == *self,
    {
        PlainTextUnencrypted(self.0.clone())
    }
}

impl PlainTextUnencrypted {
    /// The text.
    pub fn as_str(&self) -> (r: &str)
        ensures
            r@ == self.0@,
    {
        self.0.as_str()
    }
}

impl From<String> for PlainTextUnencrypted {
    fn from(s: String) -> (r: PlainTextUnencrypted) {
        PlainTextUnencrypted(s)
    }
}

impl vstd::std_specs::convert::FromSpecImpl<String> for PlainTextUnencrypted {
    open spec fn obeys_from_spec() -> bool {
        true
    }

    open spec fn from_spec(s: String) -> PlainTextUnencrypted {
        PlainTextUnencrypted(s)
    }
}

/// Everything a client is told before it connects.
#[derive(Debug)]
pub struct ClientSettings {
    pub username: PlainTextUnencrypted,
    pub password: PlainTextUnencrypted,
    pub server_address: PeerAddress,
    pub enable_listen: bool,
    pub listen_port: u32,
    /// For the connection to the server only.
    pub tcp_keepalive_settings: KeepAliveSettings,
    /// How to connect to the server again after a failure.
    pub reconnect_settings: ReconnectSettings,
    /// A limit on searches, so as not to be banned.
    pub search_rate_limit_settings: Option<SearchRateLimitSettings>,
    /// A limit on downloads, so as not to be banned.
    pub download_rate_limit_settings: Option<DownloadRateLimitSettings>,
}

impl ClientSettings {
    /// Everything but the name and the password is as it is by default.
    pub open spec fn has_defaults(self) -> bool {
        &&& self.server_address.host()@ == "server.slsknet.org"@
        &&& self.server_address.port() == 2416
        &&& self.enable_listen
        &&& self.listen_port == DEFAULT_LISTEN_PORT
        &&& self.tcp_keepalive_settings matches KeepAliveSettings::Enabled {
            idle,
            interval,
            count,
            max_idle,
        }
        &&& idle@ == 10_000_000_000
        &&& interval@ == 2_000_000_000
        &&& count == 10
        &&& max_idle@ == 30_000_000_000
        &&& self.reconnect_settings matches ReconnectSettings::EnabledExponentialBackoff {
            min_delay,
            max_delay,
            max_attempts,
        }
        &&& min_delay@ == 1_000_000_000
        &&& max_delay@ == 60_000_000_000
        &&& max_attempts is None
        &&& self.search_rate_limit_settings matches Some(searches)
        &&& searches.searches == 34
        &&& searches.per_period@ == 220_000_000_000
        &&& self.download_rate_limit_settings == Some(
            DownloadRateLimitSettings { concurrent_downloads: 2 },
        )
    }

    /// The default settings with the given name and password.
    pub fn new(username: PlainTextUnencrypted, password: PlainTextUnencrypted) -> (r: Self)
        ensures
            r.username == username,
            r.password == password,
            r.has_defaults(),
    {
        ClientSettings {
            username,
            password,
            server_address: PeerAddress::new("server.slsknet.org".to_owned(), 2416),
            enable_listen: true,
            listen_port: DEFAULT_LISTEN_PORT,
            tcp_keepalive_settings: KeepAliveSettings::Enabled {
                idle: Duration::from_secs(10),
                interval: Duration::from_secs(2),
                count: 10,
                max_idle: Duration::from_secs(30),
            },
            reconnect_settings: ReconnectSettings::EnabledExponentialBackoff {
                min_delay: Duration::from_secs(1),
                max_delay: Duration::from_secs(60),
                max_attempts: None,
            },
            search_rate_limit_settings: Some(
                SearchRateLimitSettings { searches: 34, per_period: Duration::from_secs(220) },
            ),
            download_rate_limit_settings: Some(
                DownloadRateLimitSettings { concurrent_downloads: 2 },
            ),
        }
    }
}

impl Default for ClientSettings {
    fn default() -> (r: Self)
        ensures
            r.username.0@ == Seq::<char>::empty(),
            r.password.0@ == Seq::<char>::empty(),
            r.has_defaults(),
    {
        ClientSettings::new(
            PlainTextUnencrypted(String::new()),
            PlainTextUnencrypted(String::new()),
        )
    }
}

} // verus!

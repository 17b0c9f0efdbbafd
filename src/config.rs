//! Configuration values.
use vstd::prelude::*;

verus! {

/// Addresses of the internal message buses; each has a process-local default.
#[derive(Debug, Clone, Default)]
pub struct SocketPaths {
    pub modem_urc: Option<String>,
    pub modem_rpc: Option<String>,
    pub event: Option<String>,
}

/// Settings of the telemetry sink.
#[derive(Debug, Clone)]
pub struct MqttConfig {
    pub enable: bool,
    pub server: String,
    pub port: u16,
    pub client_id: String,
}

pub struct Config {
    pub sockets: SocketPaths,
    pub mqtt: Option<MqttConfig>,
}

/// The configured value, or the default where none is configured.
pub open spec fn or_default(v: Option<String>, default: Seq<char>) -> Seq<char> {
    match v {
        Some(s) => s@,
        None => default,
    }
}

impl SocketPaths {
    /// The modem notification channel; `inproc://modem_urc` by default.
    pub fn modem_urc(&self) -> (r: &str)
        ensures
            r@ == or_default(self.modem_urc, "inproc://modem_urc"@),
    {
        match &self.modem_urc {
            Some(s) => s.as_str(),
            None => "inproc://modem_urc",
        }
    }

    /// The modem command channel; `inproc://modem_rpc` by default.
    pub fn modem_rpc(&self) -> (r: &str)
        ensures
            r@ == or_default(self.modem_rpc, "inproc://modem_rpc"@),
    {
        match &self.modem_rpc {
            Some(s) => s.as_str(),
            None => "inproc://modem_rpc",
        }
    }

    /// The event channel; `inproc://event` by default.
    pub fn event(&self) -> (r: &str)
        ensures
            r@ == or_default(self.event, "inproc://event"@),
    {
        match &self.event {
            Some(s) => s.as_str(),
            None => "inproc://event",
        }
    }
}

} // verus!

use vstd::prelude::*;

use crate::crypto::PairingMode;
use crate::screen::ScreenEdge;

verus! {

/// Trust-on-first-use policy chosen by the user.
#[derive(Clone, Copy, Debug, PartialEq, Eq, Structural)]
pub enum PairingModePreference {
    AutoTrustOnFirstUse,
    RejectUnknown,
}

/// Role of this machine in a session: the server owns the physical mouse
/// and keyboard, a client only receives input.
#[derive(Clone, Copy, Debug, PartialEq, Eq, Structural)]
pub enum Role {
    Server,
    Client,
}

/// A neighbouring machine known to the server: crossing `edge` of this
/// screen hands control to it. `device_id` is kept in hexadecimal.
#[derive(Clone, Debug, PartialEq, Eq)]
pub struct PeerConfig {
    pub device_id: String,
    pub name: String,
    pub edge: ScreenEdge,
}

/// Persistent settings of an installation.
#[derive(Clone, Debug, PartialEq)]
pub struct Settings {
    pub device_name: String,
    pub listen_port: u16,
    pub discovery_enabled: bool,
    pub pairing_mode: PairingModePreference,
    pub log_level: String,
    pub role: Role,
    /// Server only: which neighbour lies beyond which edge.
    pub peers: Vec<PeerConfig>,
    /// Client only: `host:port` of the server, or `None` to discover it.
    pub server_address: Option<String>,
}

/// Port on which a fresh installation listens.
pub const DEFAULT_LISTEN_PORT: u16 = 44890;

impl Default for Settings {
    fn default() -> (s: Settings)
        ensures
            s.device_name@ == "ionconnect"@,
            s.listen_port == DEFAULT_LISTEN_PORT,
            s.discovery_enabled,
            s.pairing_mode == PairingModePreference::RejectUnknown,
            s.log_level@ == "info"@,
            s.role == Role::Server,
            s.peers@.len() == 0,
            s.server_address is None,
    {
        Settings {
            device_name: "ionconnect".to_owned(),
            listen_port: DEFAULT_LISTEN_PORT,
            discovery_enabled: true,
            pairing_mode: PairingModePreference::RejectUnknown,
            log_level: "info".to_owned(),
            role: Role::Server,
            peers: Vec::new(),
            server_address: None,
        }
    }
}

/// The trust policy that a stored preference stands for.
pub fn to_crypto_pairing_mode(preference: PairingModePreference) -> (m: PairingMode)
    ensures
        m == (match preference {
            PairingModePreference::AutoTrustOnFirstUse => PairingMode::AutoTrustOnFirstUse,
            PairingModePreference::RejectUnknown => PairingMode::RejectUnknown,
        }),
{
    match preference {
        PairingModePreference::AutoTrustOnFirstUse => PairingMode::AutoTrustOnFirstUse,
        PairingModePreference::RejectUnknown => PairingMode::RejectUnknown,
    }
}

} // verus!

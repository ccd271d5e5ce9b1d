use vstd::prelude::*;

use crate::server::ConfiguredPeer;
use crate::types::{Authentication, DeviceId, Message};

verus! {

/// The text whose UTF-8 encoding is `bytes`, as `String::from_utf8`
/// decodes it; `None` when `bytes` is not valid UTF-8.
pub uninterp spec fn utf8_decode(bytes: Seq<u8>) -> Option<Seq<char>>;

/// Decodes `bytes` as UTF-8 text.
///
/// Calls `String::from_utf8` and keeps the text, dropping the error. The
/// contract claims only that the outcome is the decoding of `bytes`: the
/// same bytes always give the same outcome.
#[verifier::external_body]
fn decode_utf8(bytes: Vec<u8>) -> (r: Option<String>)
    ensures
        match r {
            Some(s) => utf8_decode(bytes@) == Some(s@),
            None => utf8_decode(bytes@) is None,
        },
{
    String::from_utf8(bytes).ok()
}

/// Version of the session protocol spoken here.
pub const PROTOCOL_VERSION: u32 = 1;

/// The authentication message this machine sends first: its id and name,
/// the protocol version, and an all-zero fingerprint field (the peer's
/// certificate is what identifies it).
pub fn authentication_message(device_id: DeviceId, device_name: String) -> (m: Message)
    ensures
        m matches Message::Authentication(a) && a.device_id == device_id && a.device_name@ == device_name@
            && a.protocol_version == PROTOCOL_VERSION && a.cert_fingerprint@ == Seq::new(32, |i: int| 0u8),
{
    let cert_fingerprint = [0u8; 32];
    assert(cert_fingerprint@ =~= Seq::new(32, |i: int| 0u8));
    Message::Authentication(Authentication { device_id, device_name, protocol_version: PROTOCOL_VERSION, cert_fingerprint })
}

/// Why a connecting peer is turned away.
#[derive(Debug, PartialEq, Eq)]
pub enum AuthError {
    /// The first message was not an authentication (or the connection
    /// closed before one came).
    NotAuthentication,
    /// The peer is not one of the configured neighbours.
    UnknownPeer(DeviceId),
}

/// The server's check of the first message of a connection (`None` when
/// the connection closed first): it must be an authentication, from a
/// configured neighbour.
pub fn authenticate_peer(first: Option<Message>, known: &Vec<ConfiguredPeer>) -> (r: Result<Authentication, AuthError>)
    ensures
        match first {
            Some(Message::Authentication(a)) => if exists|i: int| 0 <= i < known@.len() && (#[trigger] known@[i]).device == a.device_id {
                r == Ok::<Authentication, AuthError>(a)
            } else {
                r == Err::<Authentication, AuthError>(AuthError::UnknownPeer(a.device_id))
            },
            _ => r == Err::<Authentication, AuthError>(AuthError::NotAuthentication),
        },
{
    match first {
        Some(Message::Authentication(a)) => {
            if crate::server::is_known_peer(known, &a.device_id) {
                Ok(a)
            } else {
                let id = a.device_id;
                Err(AuthError::UnknownPeer(id))
            }
        },
        _ => Err(AuthError::NotAuthentication),
    }
}

/// The text a clipboard update carries, `None` when its bytes are not
/// valid UTF-8.
pub fn text_of_clipboard_sync(data: Vec<u8>) -> (r: Option<String>)
    ensures
        match r {
            Some(s) => utf8_decode(data@) == Some(s@),
            None => utf8_decode(data@) is None,
        },
{
    decode_utf8(data)
}

/// What the server does with a message from an authenticated peer.
#[derive(Debug, PartialEq, Eq)]
pub enum PeerEvent {
    /// Write this text to the local clipboard.
    ApplyClipboard(String),
    /// The peer reported its real desktop size.
    PeerGeometry { width: u32, height: u32 },
    /// The peer is leaving: end the connection.
    Close,
    /// Nothing to do.
    Ignore,
}

/// What the server does with a clipboard update whose bytes decoded to
/// `decoded`: text is applied, anything that is not UTF-8 is ignored.
pub fn clipboard_event(decoded: Option<String>) -> (e: PeerEvent)
    ensures
        match decoded {
            Some(t) => e matches PeerEvent::ApplyClipboard(s) && s@ == t@,
            None => e == PeerEvent::Ignore,
        },
{
    match decoded {
        Some(t) => PeerEvent::ApplyClipboard(t),
        None => PeerEvent::Ignore,
    }
}

/// What the server does with `m`, received from an authenticated peer: a
/// clipboard update in UTF-8 is applied (other bytes are ignored), a
/// desktop size replaces the assumed one, a disconnect ends the
/// connection, and anything else is ignored.
pub fn peer_event_for(m: Message) -> (e: PeerEvent)
    ensures
        match m {
            Message::ClipboardSync(sync) => match utf8_decode(sync.data@) {
                Some(t) => e matches PeerEvent::ApplyClipboard(s) && s@ == t,
                None => e == PeerEvent::Ignore,
            },
            Message::DisplayGeometry(g) => e == (PeerEvent::PeerGeometry { width: g.width, height: g.height }),
            Message::Disconnect(_) => e == PeerEvent::Close,
            _ => e == PeerEvent::Ignore,
        },
{
    match m {
        Message::ClipboardSync(sync) => clipboard_event(text_of_clipboard_sync(sync.data)),
        Message::DisplayGeometry(g) => PeerEvent::PeerGeometry { width: g.width, height: g.height },
        Message::Disconnect(_) => PeerEvent::Close,
        _ => PeerEvent::Ignore,
    }
}

} // verus!

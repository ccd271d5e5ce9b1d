use ionconnect::config::{to_crypto_pairing_mode, PairingModePreference, Role, Settings};
use ionconnect::crypto::{evaluate_trust, Fingerprint, InMemoryTrustStore, PairingMode, TrustStore};
use ionconnect::ipc::{IpcEndpoint, IpcError, IpcToken};
use ionconnect::peer_id::{device_id_hex, from_hex, local_device_id, to_hex};
use ionconnect::trust_store::{parse_hex_fingerprint, FileTrustStore};
use ionconnect::types::DeviceId;

#[test]
fn round_trips_through_hex() {
    let id = DeviceId::from_bytes([0x00, 0x11, 0x22, 0x33, 0x44, 0x55, 0x66, 0x77, 0x88, 0x99, 0xaa, 0xbb, 0xcc, 0xdd, 0xee, 0xff]);
    let hex = to_hex(id);
    assert_eq!(hex.len(), 32);
    assert_eq!(hex, "00112233445566778899aabbccddeeff");
    assert_eq!(from_hex(&hex), Some(id));
}

#[test]
fn rejects_malformed_hex() {
    assert_eq!(from_hex("no es hex"), None);
    assert_eq!(from_hex("abc"), None);
}

#[test]
fn device_ids_accept_surrounding_space_and_upper_case() {
    let id = from_hex("  00112233445566778899AABBCCDDEEFF\n").expect("válido");
    assert_eq!(to_hex(id), "00112233445566778899aabbccddeeff");
    assert_eq!(from_hex("00112233445566778899aabbccddeeg0"), None);
}

#[test]
fn two_generated_tokens_differ() {
    assert_ne!(IpcToken::generate().as_bytes(), IpcToken::generate().as_bytes());
}

#[test]
fn hex_round_trip() {
    let token = IpcToken::generate();
    let hex = token.to_hex();
    assert_eq!(hex.len(), 64);
    assert!(IpcToken::from_hex(&hex) == Some(token));
}

#[test]
fn constant_time_eq_detects_equality_and_difference() {
    let token = IpcToken::generate();
    assert!(token.constant_time_eq(&token));
    let other = IpcToken::generate();
    assert!(!token.constant_time_eq(&other));
}

#[test]
fn a_token_must_be_presented_exactly() {
    let token = IpcToken::from_bytes([7u8; 32]);
    assert!(token.authorize([7u8; 32]).is_ok());
    let mut wrong = [7u8; 32];
    wrong[31] = 8;
    assert_eq!(token.authorize(wrong), Err(IpcError::Unauthorized));
    assert!(IpcToken::from_hex(&"ab".repeat(31)).is_none());
    assert!(IpcToken::from_hex(&format!("{}zz", "ab".repeat(31))).is_none());
}

#[test]
fn endpoint_round_trips_through_its_file_text() {
    let endpoint = IpcEndpoint { port: 54321, token: IpcToken::generate() };
    let text = endpoint.to_file_contents();
    assert!(text.starts_with("54321\n"));
    assert!(text.ends_with('\n'));
    let loaded = IpcEndpoint::from_file_contents(&text).expect("cargar no debería fallar");
    assert_eq!(loaded.port, endpoint.port);
    assert!(loaded.token.constant_time_eq(&endpoint.token));
}

#[test]
fn endpoint_files_tolerate_crlf_and_reject_garbage() {
    let hex = "00".repeat(32);
    let loaded = IpcEndpoint::from_file_contents(&format!("+80\r\n{hex}\r\n")).expect("válido");
    assert_eq!(loaded.port, 80);
    assert_eq!(loaded.token.as_bytes(), &[0u8; 32]);
    assert!(matches!(IpcEndpoint::from_file_contents(""), Err(IpcError::MalformedTokenFile)));
    assert!(matches!(IpcEndpoint::from_file_contents("70000\n"), Err(IpcError::MalformedTokenFile)));
    assert!(matches!(IpcEndpoint::from_file_contents("80"), Err(IpcError::MalformedTokenFile)));
    assert!(matches!(IpcEndpoint::from_file_contents(&format!("80\n{hex} ")), Err(IpcError::MalformedTokenFile)));
}

#[test]
fn same_der_produces_same_fingerprint() {
    let der = vec![1u8, 2, 3, 4];
    assert_eq!(Fingerprint::of_der(&der), Fingerprint::of_der(&der));
}

#[test]
fn different_der_produces_different_fingerprint() {
    assert_ne!(Fingerprint::of_der(&[1, 2, 3, 4]), Fingerprint::of_der(&[1, 2, 3, 5]));
}

#[test]
fn displays_as_lowercase_hex() {
    let text = Fingerprint::of_der(&[0xAB; 8]).to_hex();
    assert_eq!(text.len(), 64);
    assert!(text.chars().all(|c| c.is_ascii_hexdigit() && !c.is_ascii_uppercase()));
}

#[test]
fn the_fingerprint_is_the_sha256_of_the_certificate() {
    assert_eq!(
        Fingerprint::of_der(b"abc").to_hex(),
        "ba7816bf8f01cfea414140de5dae2223b00361a396177a9cb410ff61f20015ad"
    );
}

#[test]
fn the_device_id_is_the_first_half_of_the_fingerprint() {
    let fp = Fingerprint::of_der(b"abc");
    assert_eq!(device_id_hex(&fp), "ba7816bf8f01cfea414140de5dae2223");
    assert_eq!(to_hex(local_device_id(&fp)), "ba7816bf8f01cfea414140de5dae2223");
}

#[test]
fn unknown_fingerprint_is_not_trusted() {
    let store = InMemoryTrustStore::new();
    let fingerprint = Fingerprint::of_der(&[1, 2, 3]);
    assert!(!store.is_trusted(&fingerprint));
}

#[test]
fn trusted_fingerprint_is_remembered() {
    let mut store = InMemoryTrustStore::new();
    let fingerprint = Fingerprint::of_der(&[1, 2, 3]);
    store.trust(fingerprint);
    assert!(store.is_trusted(&fingerprint));
}

#[test]
fn auto_trust_on_first_use_then_rejects_impostor_with_different_key() {
    let mut store = InMemoryTrustStore::new();
    assert_eq!(evaluate_trust(&mut store, PairingMode::RejectUnknown, &[9, 9]), Err(Fingerprint::of_der(&[9, 9])));
    assert!(evaluate_trust(&mut store, PairingMode::AutoTrustOnFirstUse, &[9, 9]).is_ok());
    assert!(evaluate_trust(&mut store, PairingMode::RejectUnknown, &[9, 9]).is_ok());
    assert!(evaluate_trust(&mut store, PairingMode::RejectUnknown, &[9, 8]).is_err());
}

#[test]
fn missing_file_starts_empty() {
    let store = FileTrustStore::new();
    let fingerprint = Fingerprint::of_der(&[1, 2, 3]);
    assert!(!store.is_trusted(&fingerprint));
}

#[test]
fn trust_persists_across_reloads() {
    let fingerprint = Fingerprint::of_der(&[9, 9, 9]);
    let other = Fingerprint::of_der(&[8]);
    let mut store = FileTrustStore::new();
    store.trust(fingerprint);
    store.trust(other);
    store.trust(fingerprint);
    let text = store.to_file_contents();
    assert_eq!(text, format!("{}\n{}", fingerprint.to_hex(), other.to_hex()));

    let reloaded = FileTrustStore::from_file_contents(&text);
    assert!(reloaded.is_trusted(&fingerprint));
    assert!(reloaded.is_trusted(&other));
    assert!(!reloaded.is_trusted(&Fingerprint::of_der(&[7])));
}

#[test]
fn trust_files_skip_lines_that_are_not_fingerprints() {
    let fp = Fingerprint::of_der(&[1]);
    let text = format!("basura\n\n  {}  \r\nzz\n", fp.to_hex().to_uppercase());
    let store = FileTrustStore::from_file_contents(&text);
    assert!(store.is_trusted(&fp));
    assert_eq!(parse_hex_fingerprint(&fp.to_hex()), Some(fp));
    assert_eq!(parse_hex_fingerprint("abc"), None);
}

#[test]
fn defaults_of_a_fresh_installation() {
    let s = Settings::default();
    assert_eq!(s.device_name, "ionconnect");
    assert_eq!(s.listen_port, 44890);
    assert!(s.discovery_enabled);
    assert_eq!(s.pairing_mode, PairingModePreference::RejectUnknown);
    assert_eq!(s.log_level, "info");
    assert_eq!(s.role, Role::Server);
    assert!(s.peers.is_empty());
    assert_eq!(s.server_address, None);
    assert_eq!(to_crypto_pairing_mode(PairingModePreference::AutoTrustOnFirstUse), PairingMode::AutoTrustOnFirstUse);
    assert_eq!(to_crypto_pairing_mode(PairingModePreference::RejectUnknown), PairingMode::RejectUnknown);
}

#[test]
fn signed_pairs_are_not_hexadecimal() {
    assert_eq!(from_hex(&"+0".repeat(16)), None);
    assert_eq!(from_hex(&format!("+1{}", "00".repeat(15))), None);
    assert!(IpcToken::from_hex(&"+0".repeat(32)).is_none());
    assert_eq!(parse_hex_fingerprint(&"+0".repeat(32)), None);
}

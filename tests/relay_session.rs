use globed_auth::error::PacketHandlingError;
use globed_auth::keys::derive_authkey;
use globed_auth::policy::UserlistMode;
use globed_auth::session::{check_packet_size, PeerSession, RelaySettings, SessionState};
use globed_auth::token::TokenIssuer;

const NOW: u64 = 1_700_000_000;

fn settings(mode: UserlistMode, list: Vec<i32>) -> RelaySettings {
    RelaySettings {
        secret_key: "k1".to_string(),
        secret_key2: "k2".to_string(),
        issuer: TokenIssuer::new("pw".to_string(), 86400),
        userlist_mode: mode,
        userlist: list,
        max_packet_size: 1024,
        max_packets_per_second: 3,
    }
}

fn established(s: &RelaySettings) -> PeerSession {
    let token = s.issuer.generate(42, "Alice", NOW);
    let mut p = PeerSession::new();
    p.begin_handshake().unwrap();
    p.complete_handshake(s, 42, "Alice", &token, NOW).unwrap();
    p
}

#[test]
fn handshake_derives_shared_key() {
    let s = settings(UserlistMode::Disabled, vec![]);
    let p = established(&s);
    assert_eq!(p.state, SessionState::Established);
    assert_eq!(p.account_id, 42);
    assert_eq!(p.shared_key, derive_authkey("k1", "k2", 42, "Alice"));
}

#[test]
fn second_handshake_refused() {
    let s = settings(UserlistMode::Disabled, vec![]);
    let mut p = established(&s);
    assert!(matches!(p.begin_handshake(), Err(PacketHandlingError::WrongCryptoBoxState)));
    let token = s.issuer.generate(42, "Alice", NOW);
    assert!(matches!(
        p.complete_handshake(&s, 42, "Alice", &token, NOW),
        Err(PacketHandlingError::WrongCryptoBoxState)
    ));
    assert_eq!(p.state, SessionState::Established);
}

#[test]
fn handshake_with_foreign_token_closes() {
    let s = settings(UserlistMode::Disabled, vec![]);
    let token = s.issuer.generate(43, "Alice", NOW);
    let mut p = PeerSession::new();
    p.begin_handshake().unwrap();
    assert!(p.complete_handshake(&s, 42, "Alice", &token, NOW).is_err());
    assert_eq!(p.state, SessionState::Closed);
}

#[test]
fn handshake_with_expired_token_closes() {
    let s = settings(UserlistMode::Disabled, vec![]);
    let token = s.issuer.generate(42, "Alice", NOW);
    let mut p = PeerSession::new();
    p.begin_handshake().unwrap();
    assert!(p.complete_handshake(&s, 42, "Alice", &token, NOW + 86401).is_err());
    assert_eq!(p.state, SessionState::Closed);
}

#[test]
fn handshake_respects_userlist() {
    let s = settings(UserlistMode::Blacklist, vec![42]);
    let token = s.issuer.generate(42, "Alice", NOW);
    let mut p = PeerSession::new();
    p.begin_handshake().unwrap();
    assert!(p.complete_handshake(&s, 42, "Alice", &token, NOW).is_err());
    assert_eq!(p.state, SessionState::Closed);
}

#[test]
fn packets_need_established_session() {
    let s = settings(UserlistMode::Disabled, vec![]);
    let mut p = PeerSession::new();
    assert!(matches!(p.admit_packet(&s, 10, NOW), Err(PacketHandlingError::WrongCryptoBoxState)));
}

#[test]
fn oversized_packet_refused() {
    assert!(matches!(check_packet_size(1025, 1024), Err(PacketHandlingError::DangerousAllocation(1025))));
    assert!(check_packet_size(1024, 1024).is_ok());
    let s = settings(UserlistMode::Disabled, vec![]);
    let mut p = established(&s);
    assert!(matches!(p.admit_packet(&s, 5000, NOW), Err(PacketHandlingError::DangerousAllocation(5000))));
    assert_eq!(p.state, SessionState::Established);
}

#[test]
fn packet_rate_ceiling() {
    let s = settings(UserlistMode::Disabled, vec![]);
    let mut p = established(&s);
    for _ in 0..3 {
        assert!(p.admit_packet(&s, 10, NOW).is_ok());
    }
    assert!(p.admit_packet(&s, 10, NOW + 1).is_ok());
    for _ in 0..2 {
        assert!(p.admit_packet(&s, 10, NOW + 1).is_ok());
    }
    assert!(matches!(p.admit_packet(&s, 10, NOW + 1), Err(PacketHandlingError::Ratelimited)));
    assert_eq!(p.state, SessionState::Closed);
}

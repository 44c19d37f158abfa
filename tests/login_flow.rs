use base64::Engine;
use globed_auth::auth::{
    challenge_finish, challenge_finish_comments, challenge_start, totp_login, AuthError, FinishStep,
    RequestMeta, ServerState,
};
use globed_auth::cdn::{ipv4_key, IpBlocker};
use globed_auth::config::{ServerConfig, UserlistMode};
use globed_auth::token::TokenIssuer;
use hmac::Mac;
use sha2::Digest;

const NOW: u64 = 1_700_000_000;

fn config() -> ServerConfig {
    let mut cfg = ServerConfig::defaults();
    cfg.secret_key = "first-secret".to_string();
    cfg.secret_key2 = "second-secret".to_string();
    cfg.game_server_password = "relay-password".to_string();
    cfg
}

fn state(cfg: ServerConfig) -> ServerState {
    ServerState::new(cfg, IpBlocker::new(vec![]))
}

fn client_ip() -> u128 {
    ipv4_key(0x0a00_0001)
}

fn meta() -> RequestMeta {
    RequestMeta {
        user_agent: Some("globed-geode-xd-1.0".to_string()),
        peer_ip: client_ip(),
        forwarded_ip: None,
        release: true,
    }
}

/// A code computed the way a client computes it.
fn reference_totp(key: &[u8], t: u64) -> String {
    let mut mac = <hmac::Hmac<sha2::Sha256> as Mac>::new_from_slice(key).unwrap();
    mac.update(&(t / 30).to_be_bytes());
    let h = mac.finalize().into_bytes();
    let o = (h[h.len() - 1] & 0x0f) as usize;
    let bin = ((h[o] as u32 & 0x7f) << 24)
        | ((h[o + 1] as u32) << 16)
        | ((h[o + 2] as u32) << 8)
        | (h[o + 3] as u32);
    format!("{:06}", bin % 1_000_000)
}

fn reference_authkey(aid: i32, aname: &str) -> Vec<u8> {
    let mut h = sha2::Sha256::new();
    h.update(b"first-secret");
    h.update(b"second-secret");
    h.update(aid.to_le_bytes());
    h.update(aname.to_lowercase().as_bytes());
    h.finalize().to_vec()
}

fn start_value(st: &mut ServerState, aid: i32, now: u64) -> String {
    let body = challenge_start(st, &meta(), aid, now).unwrap();
    let (prefix, value) = body.split_once(':').unwrap();
    assert_eq!(prefix, "none");
    value.to_string()
}

#[test]
fn fast_path_login() {
    let mut st = state(config());
    let body = challenge_start(&mut st, &meta(), 42, NOW).unwrap();
    assert!(body.starts_with("none:"));
    let s = &body[5..];
    assert_eq!(s.len(), 32);
    assert!(s.chars().all(|c| c.is_ascii_alphanumeric()));

    let answer = reference_totp(s.as_bytes(), NOW);
    let r = challenge_finish(&mut st, &meta(), 42, "Alice", &answer, NOW, NOW).unwrap();
    let expected = format!(
        "none:{}",
        base64::engine::general_purpose::STANDARD.encode(reference_authkey(42, "Alice"))
    );
    match r {
        FinishStep::Done(b) => assert_eq!(b, expected),
        FinishStep::FetchComments(_) => panic!("expected the fast path"),
    }

    let again = challenge_finish(&mut st, &meta(), 42, "Alice", &answer, NOW, NOW);
    let err = match again {
        Err(e) => e,
        Ok(_) => panic!("second answer accepted"),
    };
    assert_eq!(err, AuthError::NoChallenge);
    assert_eq!(err.status(), 403);
    assert!(err.message().starts_with("challenge does not exist"));
}

#[test]
fn finish_removes_challenge() {
    let mut st = state(config());
    let s = start_value(&mut st, 7, NOW);
    let answer = reference_totp(s.as_bytes(), NOW);
    assert!(challenge_finish(&mut st, &meta(), 7, "Bob", &answer, 0, NOW).is_ok());
    assert!(st.challenges.get(client_ip()).is_none());
}

#[test]
fn mismatched_account_id() {
    let mut st = state(config());
    let s = start_value(&mut st, 42, NOW);
    let answer = reference_totp(s.as_bytes(), NOW);
    let r = challenge_finish(&mut st, &meta(), 43, "Alice", &answer, NOW, NOW);
    let err = r.err().unwrap();
    assert_eq!(err, AuthError::WrongAccount);
    assert_eq!(err.status(), 401);
}

#[test]
fn wrong_answer_refused() {
    let mut st = state(config());
    let s = start_value(&mut st, 42, NOW);
    let good = reference_totp(s.as_bytes(), NOW);
    let bad = if good == "000000" { "000001" } else { "000000" };
    let err = challenge_finish(&mut st, &meta(), 42, "Alice", bad, NOW, NOW).err().unwrap();
    assert_eq!(err, AuthError::WrongAnswer);
    assert!(st.challenges.get(client_ip()).is_some());
}

#[test]
fn whitelist_rejection() {
    let mut cfg = config();
    cfg.userlist_mode = UserlistMode::Whitelist;
    cfg.userlist = vec![1, 2];
    let mut st = state(cfg);
    let err = challenge_start(&mut st, &meta(), 99, NOW).err().unwrap();
    assert_eq!(err, AuthError::NotWhitelisted);
    assert_eq!(err.status(), 403);
    assert!(err.message().contains("whitelist enabled"));
    assert!(challenge_start(&mut st, &meta(), 2, NOW).is_ok());
}

#[test]
fn blacklist_rejection() {
    let mut cfg = config();
    cfg.userlist_mode = UserlistMode::Blacklist;
    cfg.userlist = vec![5];
    let mut st = state(cfg);
    assert_eq!(challenge_start(&mut st, &meta(), 5, NOW).err(), Some(AuthError::Blacklisted));
    assert!(challenge_start(&mut st, &meta(), 6, NOW).is_ok());
}

#[test]
fn totp_login_mints_token() {
    let st = state(config());
    let key = reference_authkey(42, "Alice");
    let code = reference_totp(&key, NOW);
    let token = totp_login(&st, &meta(), 42, "Alice", &code, NOW).unwrap();
    let issuer = TokenIssuer::new("relay-password".to_string(), 86400);
    assert_eq!(issuer.validate(&token, NOW), Ok((42, "Alice".to_string())));
}

#[test]
fn totp_login_wrong_code() {
    let st = state(config());
    let key = reference_authkey(42, "Alice");
    let good = reference_totp(&key, NOW);
    let bad = if good == "123456" { "654321" } else { "123456" };
    let err = totp_login(&st, &meta(), 42, "Alice", bad, NOW).err().unwrap();
    assert_eq!(err, AuthError::LoginFailed);
    assert_eq!(err.status(), 401);
}

#[test]
fn clock_skew_rejection() {
    let mut st = state(config());
    let s = start_value(&mut st, 42, NOW);
    let answer = reference_totp(s.as_bytes(), NOW);
    let err = challenge_finish(&mut st, &meta(), 42, "Alice", &answer, NOW - 60, NOW).err().unwrap();
    assert_eq!(err, AuthError::ClockOutOfSync);
    assert_eq!(err.status(), 400);
    assert!(err.message().contains("out of sync"));
}

#[test]
fn clock_skew_boundary() {
    let mut st = state(config());
    let s = start_value(&mut st, 42, NOW);
    let answer = reference_totp(s.as_bytes(), NOW);
    let late = challenge_finish(&mut st, &meta(), 42, "Alice", &answer, NOW - 46, NOW);
    assert_eq!(late.err(), Some(AuthError::ClockOutOfSync));
    let ahead = challenge_finish(&mut st, &meta(), 42, "Alice", &answer, NOW + 46, NOW);
    assert_eq!(ahead.err(), Some(AuthError::ClockOutOfSync));
    assert!(challenge_finish(&mut st, &meta(), 42, "Alice", &answer, NOW - 45, NOW).is_ok());
}

#[test]
fn clock_skew_ahead_accepted() {
    let mut st = state(config());
    let s = start_value(&mut st, 42, NOW);
    let answer = reference_totp(s.as_bytes(), NOW);
    assert!(challenge_finish(&mut st, &meta(), 42, "Alice", &answer, NOW + 45, NOW).is_ok());
}

#[test]
fn external_api_down() {
    let mut cfg = config();
    cfg.use_gd_api = true;
    let mut st = state(cfg);
    let body = challenge_start(&mut st, &meta(), 42, NOW).unwrap();
    assert!(body.starts_with("1:"));
    let s = &body[2..];
    let answer = reference_totp(s.as_bytes(), NOW);
    let pending = match challenge_finish(&mut st, &meta(), 42, "Alice", &answer, NOW, NOW).unwrap() {
        FinishStep::FetchComments(p) => p,
        FinishStep::Done(_) => panic!("expected the comment lookup"),
    };
    assert_eq!(pending.challenge, s);
    assert_eq!(pending.level, 1);
    let err = challenge_finish_comments(&mut st, &pending, 42, "Alice", "-1", NOW).err().unwrap();
    assert_eq!(err, AuthError::UpstreamDown);
    assert_eq!(err.status(), 500);
    assert!(st.challenges.get(client_ip()).is_some());
}

fn comment_record(comment_id: &str, text: &str, author: &str, aid: i32) -> String {
    let encoded = base64::engine::general_purpose::URL_SAFE.encode(text.as_bytes());
    format!("2~{encoded}~6~{comment_id}~9~1 day:1~{author}~16~{aid}~9~2")
}

fn pending_for(st: &mut ServerState, aid: i32) -> (globed_auth::auth::PendingProof, String) {
    let body = challenge_start(st, &meta(), aid, NOW).unwrap();
    let s = body.split_once(':').unwrap().1.to_string();
    let answer = reference_totp(s.as_bytes(), NOW);
    match challenge_finish(st, &meta(), aid, "Alice", &answer, NOW, NOW).unwrap() {
        FinishStep::FetchComments(p) => (p, s),
        FinishStep::Done(_) => panic!("expected the comment lookup"),
    }
}

#[test]
fn comment_proof_accepted() {
    let mut cfg = config();
    cfg.use_gd_api = true;
    let mut st = state(cfg);
    let (pending, s) = pending_for(&mut st, 42);
    let code = reference_totp(s.as_bytes(), NOW);
    let response = format!(
        "{}|{}|{}#1:0:10",
        comment_record("111", "000000 nope", "Mallory", 42),
        comment_record("222", &format!("{code} proof"), "aLiCe", 42),
        comment_record("333", &format!("{code} later"), "Alice", 42),
    );
    let body = challenge_finish_comments(&mut st, &pending, 42, "Alice", &response, NOW).unwrap();
    let expected = format!(
        "222:{}",
        base64::engine::general_purpose::STANDARD.encode(reference_authkey(42, "Alice"))
    );
    assert_eq!(body, expected);
    assert!(st.challenges.get(client_ip()).is_none());
}

#[test]
fn comment_by_other_account_refused() {
    let mut cfg = config();
    cfg.use_gd_api = true;
    let mut st = state(cfg);
    let (pending, s) = pending_for(&mut st, 42);
    let code = reference_totp(s.as_bytes(), NOW);
    let response = format!(
        "{}|{}",
        comment_record("1", &code, "Alice", 41),
        comment_record("2", &code, "Alicia", 42)
    );
    let err = challenge_finish_comments(&mut st, &pending, 42, "Alice", &response, NOW).err().unwrap();
    assert_eq!(err, AuthError::NoMatchingComment);
    assert_eq!(err.status(), 401);
    assert!(st.challenges.get(client_ip()).is_some());
}

#[test]
fn comment_after_hash_ignored() {
    let mut cfg = config();
    cfg.use_gd_api = true;
    let mut st = state(cfg);
    let (pending, s) = pending_for(&mut st, 42);
    let code = reference_totp(s.as_bytes(), NOW);
    let response = format!("#{}", comment_record("5", &code, "Alice", 42));
    let err = challenge_finish_comments(&mut st, &pending, 42, "Alice", &response, NOW).err().unwrap();
    assert_eq!(err, AuthError::NoMatchingComment);
}

#[test]
fn comment_too_short_refused() {
    let mut cfg = config();
    cfg.use_gd_api = true;
    let mut st = state(cfg);
    let (pending, s) = pending_for(&mut st, 42);
    let code = reference_totp(s.as_bytes(), NOW);
    let response = comment_record("5", &code[..5], "Alice", 42);
    let err = challenge_finish_comments(&mut st, &pending, 42, "Alice", &response, NOW).err().unwrap();
    assert_eq!(err, AuthError::NoMatchingComment);
}

#[test]
fn release_checks_user_agent() {
    let mut st = state(config());
    let mut m = meta();
    m.user_agent = Some("mozilla".to_string());
    let err = challenge_start(&mut st, &m, 42, NOW).err().unwrap();
    assert_eq!(err, AuthError::BadUserAgent);
    assert_eq!(err.status(), 401);
    m.user_agent = None;
    assert_eq!(challenge_start(&mut st, &m, 42, NOW).err(), Some(AuthError::MissingUserAgent));
    m.user_agent = Some("globed-geode-xd-1.0".to_string());
    assert!(challenge_start(&mut st, &m, 42, NOW).is_ok());
}

#[test]
fn debug_build_accepts_any_user_agent() {
    let mut st = state(config());
    let mut m = meta();
    m.release = false;
    m.user_agent = Some("mozilla".to_string());
    assert!(challenge_start(&mut st, &m, 42, NOW).is_ok());
}

#[test]
fn maintenance_refuses_everything() {
    let mut cfg = config();
    cfg.maintenance = true;
    let mut st = state(cfg);
    let err = challenge_start(&mut st, &meta(), 42, NOW).err().unwrap();
    assert_eq!(err, AuthError::Maintenance);
    assert_eq!(err.status(), 503);
    assert_eq!(
        challenge_finish(&mut st, &meta(), 42, "A", "000000", 0, NOW).err(),
        Some(AuthError::Maintenance)
    );
    assert_eq!(totp_login(&st, &meta(), 42, "A", "000000", NOW).err(), Some(AuthError::Maintenance));
}

#[test]
fn challenge_reused_for_same_account() {
    let mut st = state(config());
    let a = start_value(&mut st, 42, NOW);
    let b = start_value(&mut st, 42, NOW + 100);
    assert_eq!(a, b);
    assert_eq!(st.challenges.challenges.len(), 1);
}

#[test]
fn challenge_busy_for_other_account() {
    let mut st = state(config());
    start_value(&mut st, 1, NOW);
    let err = challenge_start(&mut st, &meta(), 2, NOW + 29).err().unwrap();
    assert_eq!(err, AuthError::ChallengeBusy);
    assert_eq!(err.status(), 403);
}

#[test]
fn challenge_expires_at_expiry() {
    let mut st = state(config());
    let first = start_value(&mut st, 1, NOW);
    let second = start_value(&mut st, 2, NOW + 30);
    assert_ne!(first, second);
    let c = st.challenges.get(client_ip()).unwrap();
    assert_eq!(c.account_id, 2);
    assert_eq!(c.started, NOW + 30);
    assert_eq!(st.challenges.challenges.len(), 1);
}

#[test]
fn cloudflare_protection_uses_forwarded_ip() {
    let mut cfg = config();
    cfg.cloudflare_protection = true;
    let mut blocker = IpBlocker::new(vec![]);
    blocker.add_v4(0xad_f5_30_00, 20);
    let mut st = ServerState::new(cfg, blocker);
    let mut m = meta();
    m.peer_ip = ipv4_key(0x0102_0304);
    m.forwarded_ip = Some(ipv4_key(0x0505_0505));
    let err = challenge_start(&mut st, &m, 42, NOW).err().unwrap();
    assert_eq!(err, AuthError::UntrustedPeer);
    assert_eq!(err.status(), 401);

    m.peer_ip = ipv4_key(0xad_f5_30_07);
    assert!(challenge_start(&mut st, &m, 42, NOW).is_ok());
    assert!(st.challenges.get(ipv4_key(0x0505_0505)).is_some());
    assert!(st.challenges.get(m.peer_ip).is_none());

    m.forwarded_ip = None;
    let err = challenge_start(&mut st, &m, 42, NOW).err().unwrap();
    assert_eq!(err, AuthError::BadIpHeader);
    assert_eq!(err.status(), 400);
}

#[test]
fn login_attempts_are_limited() {
    let mut cfg = config();
    cfg.use_gd_api = true;
    cfg.challenge_ratelimit = 2;
    let mut st = state(cfg);
    for _ in 0..2 {
        pending_for(&mut st, 42);
    }
    let s = st.challenges.get(client_ip()).unwrap().value;
    let answer = reference_totp(s.as_bytes(), NOW);
    let err = challenge_finish(&mut st, &meta(), 42, "Alice", &answer, NOW, NOW).err().unwrap();
    assert_eq!(err, AuthError::TooManyAttempts);
    assert_eq!(err.status(), 429);
    assert_eq!(challenge_start(&mut st, &meta(), 42, NOW).err(), Some(AuthError::RateLimited));
    assert!(challenge_start(&mut st, &meta(), 42, NOW + 60).is_ok());
}

#[test]
fn refusal_texts() {
    assert_eq!(AuthError::LoginFailed.message(), "login failed");
    assert!(AuthError::ChallengeBusy.message().starts_with("challenge already requested"));
    assert_eq!(AuthError::Blacklisted.message(), "<cr>You had only one shot.</c>");
    assert_eq!(AuthError::NoChallenge.message(), "challenge does not exist for this IP address");
}

#[test]
fn comment_request_form_fields() {
    let form = globed_auth::auth::comment_request_form(-12);
    let pairs: Vec<(&str, &str)> = form.iter().map(|(k, v)| (k.as_str(), v.as_str())).collect();
    assert_eq!(
        pairs,
        vec![
            ("levelID", "-12"),
            ("page", "0"),
            ("secret", "Wmfd2893gb7"),
            ("gameVersion", "22"),
            ("binaryVersion", "38"),
            ("gdw", "0"),
            ("mode", "0"),
            ("total", "0"),
        ]
    );
}

#[test]
fn only_first_records_searched() {
    let mut cfg = config();
    cfg.use_gd_api = true;
    let mut st = state(cfg);
    let (pending, s) = pending_for(&mut st, 42);
    let code = reference_totp(s.as_bytes(), NOW);
    let filler: Vec<String> = (0..50).map(|i| comment_record(&i.to_string(), "nothing", "Eve", 1)).collect();
    let response = format!("{}|{}", filler.join("|"), comment_record("99", &code, "Alice", 42));
    let err = challenge_finish_comments(&mut st, &pending, 42, "Alice", &response, NOW).err().unwrap();
    assert_eq!(err, AuthError::NoMatchingComment);
    let response = format!("{}|{}", filler[..49].join("|"), comment_record("99", &code, "Alice", 42));
    assert!(challenge_finish_comments(&mut st, &pending, 42, "Alice", &response, NOW).is_ok());
}

#[test]
fn debug_build_still_records_attempts() {
    let mut cfg = config();
    cfg.use_gd_api = true;
    let mut st = state(cfg);
    let mut m = meta();
    m.release = false;
    let body = challenge_start(&mut st, &m, 42, NOW).unwrap();
    let s = body.split_once(':').unwrap().1.to_string();
    let answer = reference_totp(s.as_bytes(), NOW);
    assert!(challenge_finish(&mut st, &m, 42, "Alice", &answer, NOW, NOW).is_ok());
    assert_eq!(st.login_attempts.attempts.get(&client_ip()).unwrap(), &vec![NOW]);
}

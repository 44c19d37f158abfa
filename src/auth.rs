use vstd::prelude::*;

use crate::cdn::{ranges_allow, IpBlocker};
use crate::challenge::{challenge_expired, valid_challenge_value, ChallengeStore, ChallengeView};
use crate::config::{ServerConfig, UserlistMode};
use crate::crypto::{b64_encode, b64_of, b64url_decode, lower_of, lowercase};
use crate::keys::{authkey_of, code_accepted, derive_authkey, verify_totp};
use crate::parse::{
    chars_equal, find_first, first_of, i32_of, parse_i32, robtop_get, robtop_lookup, slice_chars,
    split_chars, split_seq,
};
use crate::policy::{policy_rejects, should_block};
use crate::ratelimit::{attempts_of, recent_attempts, LoginLimiter};
use crate::text::{chars_of, collect_chars, decimal, decimal_of, starts_with};
use crate::token::{b64url_decoded, token_payload, token_text, TokenIssuer};
use vstd::string::StringExecFns;
use vstd::utf8::encode_utf8;

verus! {

/// Largest difference between a client's clock and ours that a login accepts,
/// in seconds.
pub const MAX_CLOCK_SKEW: u64 = 45;

/// Why a request to the login endpoints was refused.
#[derive(PartialEq, Eq, Structural, Debug, Clone, Copy)]
pub enum AuthError {
    Maintenance,
    MissingUserAgent,
    BadUserAgent,
    UntrustedPeer,
    BadIpHeader,
    Blacklisted,
    NotWhitelisted,
    RateLimited,
    TooManyAttempts,
    ChallengeBusy,
    ClockOutOfSync,
    NoChallenge,
    WrongAccount,
    WrongAnswer,
    LoginFailed,
    UpstreamDown,
    NoMatchingComment,
}

/// The HTTP status that answers an error.
pub open spec fn status_of(e: AuthError) -> u16 {
    match e {
        AuthError::Maintenance => 503,
        AuthError::MissingUserAgent => 401,
        AuthError::BadUserAgent => 401,
        AuthError::UntrustedPeer => 401,
        AuthError::BadIpHeader => 400,
        AuthError::Blacklisted => 403,
        AuthError::NotWhitelisted => 403,
        AuthError::RateLimited => 429,
        AuthError::TooManyAttempts => 429,
        AuthError::ChallengeBusy => 403,
        AuthError::ClockOutOfSync => 400,
        AuthError::NoChallenge => 403,
        AuthError::WrongAccount => 401,
        AuthError::WrongAnswer => 401,
        AuthError::LoginFailed => 401,
        AuthError::UpstreamDown => 500,
        AuthError::NoMatchingComment => 401,
    }
}

/// The sentence that answers an error.
pub open spec fn auth_message(e: AuthError) -> Seq<char> {
    match e {
        AuthError::Maintenance => "The server is currently under maintenance, please try connecting again later."@,
        AuthError::MissingUserAgent => "what?"@,
        AuthError::BadUserAgent => "bad request"@,
        AuthError::UntrustedPeer => "access is denied from this IP address"@,
        AuthError::BadIpHeader => "failed to parse the IP header from Cloudflare"@,
        AuthError::Blacklisted => "<cr>You had only one shot.</c>"@,
        AuthError::NotWhitelisted => "This server has whitelist enabled and your account ID has not been approved."@,
        AuthError::RateLimited => "you are doing this too fast, please try again later"@,
        AuthError::TooManyAttempts => "too many login attempts from this address, please wait a minute and try again"@,
        AuthError::ChallengeBusy => "challenge already requested for this account ID, please wait a minute and try again"@,
        AuthError::ClockOutOfSync => "your system clock seems to be out of sync, please adjust it in your system settings"@,
        AuthError::NoChallenge => "challenge does not exist for this IP address"@,
        AuthError::WrongAccount => "challenge was requested for a different account ID, not validating"@,
        AuthError::WrongAnswer => "invalid answer to the challenge in the query parameter"@,
        AuthError::LoginFailed => "login failed"@,
        AuthError::UpstreamDown => "RobTop's server returned -1, if GD servers are not currently down please report this issue!"@,
        AuthError::NoMatchingComment => "failed to find the comment with the correct challenge solution"@,
    }
}

impl AuthError {
    /// The HTTP status that answers this error.
    pub fn status(&self) -> (r: u16)
        ensures
            r == status_of(*self),
    {
        match self {
            AuthError::Maintenance => 503,
            AuthError::MissingUserAgent => 401,
            AuthError::BadUserAgent => 401,
            AuthError::UntrustedPeer => 401,
            AuthError::BadIpHeader => 400,
            AuthError::Blacklisted => 403,
            AuthError::NotWhitelisted => 403,
            AuthError::RateLimited => 429,
            AuthError::TooManyAttempts => 429,
            AuthError::ChallengeBusy => 403,
            AuthError::ClockOutOfSync => 400,
            AuthError::NoChallenge => 403,
            AuthError::WrongAccount => 401,
            AuthError::WrongAnswer => 401,
            AuthError::LoginFailed => 401,
            AuthError::UpstreamDown => 500,
            AuthError::NoMatchingComment => 401,
        }
    }

    /// A short sentence for the client.
    pub fn message(&self) -> (r: String)
        ensures
            r@ == auth_message(*self),
    {
        match self {
            AuthError::Maintenance => String::from_str("The server is currently under maintenance, please try connecting again later."),
            AuthError::MissingUserAgent => String::from_str("what?"),
            AuthError::BadUserAgent => String::from_str("bad request"),
            AuthError::UntrustedPeer => String::from_str("access is denied from this IP address"),
            AuthError::BadIpHeader => String::from_str("failed to parse the IP header from Cloudflare"),
            AuthError::Blacklisted => String::from_str("<cr>You had only one shot.</c>"),
            AuthError::NotWhitelisted => String::from_str("This server has whitelist enabled and your account ID has not been approved."),
            AuthError::RateLimited => String::from_str("you are doing this too fast, please try again later"),
            AuthError::TooManyAttempts => String::from_str("too many login attempts from this address, please wait a minute and try again"),
            AuthError::ChallengeBusy => String::from_str("challenge already requested for this account ID, please wait a minute and try again"),
            AuthError::ClockOutOfSync => String::from_str("your system clock seems to be out of sync, please adjust it in your system settings"),
            AuthError::NoChallenge => String::from_str("challenge does not exist for this IP address"),
            AuthError::WrongAccount => String::from_str("challenge was requested for a different account ID, not validating"),
            AuthError::WrongAnswer => String::from_str("invalid answer to the challenge in the query parameter"),
            AuthError::LoginFailed => String::from_str("login failed"),
            AuthError::UpstreamDown => String::from_str("RobTop's server returned -1, if GD servers are not currently down please report this issue!"),
            AuthError::NoMatchingComment => String::from_str("failed to find the comment with the correct challenge solution"),
        }
    }
}

/// What the transport tells about a request.
pub struct RequestMeta {
    pub user_agent: Option<String>,
    /// Address of the connected peer.
    pub peer_ip: u128,
    /// The client address forwarded by the reverse proxy, if the header was
    /// present and held an address.
    pub forwarded_ip: Option<u128>,
    /// Release builds check the user agent and the reverse proxy.
    pub release: bool,
}

/// The shared state of the central service.
pub struct ServerState {
    pub config: ServerConfig,
    pub challenges: ChallengeStore,
    pub login_attempts: LoginLimiter,
    pub ip_blocker: IpBlocker,
}

impl ServerState {
    pub fn new(config: ServerConfig, ip_blocker: IpBlocker) -> (r: ServerState)
        ensures
            r.config == config,
            r.ip_blocker == ip_blocker,
            r.challenges@ == Map::<u128, ChallengeView>::empty(),
            r.login_attempts@ == Map::<u128, Seq<u64>>::empty(),
    {
        ServerState {
            config,
            challenges: ChallengeStore::new(),
            login_attempts: LoginLimiter::new(),
            ip_blocker,
        }
    }
}

/// The tag that a client's user agent must begin with.
pub open spec fn client_tag() -> Seq<char> {
    "globed-geode-xd"@
}

/// The refusal that the user agent earns, if any.
pub open spec fn user_agent_verdict(release: bool, ua: Option<String>) -> Option<AuthError> {
    match ua {
        None => Some(AuthError::MissingUserAgent),
        Some(u) => if release && !(client_tag().len() <= u@.len() && u@.take(client_tag().len() as int)
            == client_tag()) {
            Some(AuthError::BadUserAgent)
        } else {
            None
        },
    }
}

/// The address that a request is accounted to, or why it has none.
pub open spec fn user_ip_verdict(st: ServerState, meta: RequestMeta) -> Result<u128, AuthError> {
    if st.config.cloudflare_protection && meta.release {
        if !ranges_allow(st.ip_blocker.ranges@, meta.peer_ip) {
            Err(AuthError::UntrustedPeer)
        } else {
            match meta.forwarded_ip {
                Some(ip) => Ok(ip),
                None => Err(AuthError::BadIpHeader),
            }
        }
    } else {
        Ok(meta.peer_ip)
    }
}

/// The refusal that the userlist gives `aid`, if any.
pub open spec fn userlist_verdict(cfg: ServerConfig, aid: i32) -> Option<AuthError> {
    if policy_rejects(aid, cfg.userlist_mode, cfg.userlist@) {
        Some(
            if cfg.userlist_mode == UserlistMode::Blacklist {
                AuthError::Blacklisted
            } else {
                AuthError::NotWhitelisted
            },
        )
    } else {
        None
    }
}

/// `ip` has used up its login attempts at `now`.
pub open spec fn ip_ratelimited(st: ServerState, ip: u128, now: u64) -> bool {
    recent_attempts(attempts_of(st.login_attempts@, ip), now).len() >= st.config.challenge_ratelimit
}

/// What precedes the challenge in the answer to a new challenge.
pub open spec fn level_prefix(cfg: ServerConfig) -> Seq<char> {
    if cfg.use_gd_api {
        decimal_of(cfg.challenge_level as int)
    } else {
        "none"@
    }
}

/// The answer to a new challenge.
pub open spec fn start_body(cfg: ServerConfig, value: Seq<char>) -> Seq<char> {
    level_prefix(cfg) + seq![':'] + value
}

/// The refusal that `challenge_start` gives before it looks at challenges.
pub open spec fn start_gate(st: ServerState, meta: RequestMeta, aid: i32, now: u64) -> Option<AuthError> {
    if st.config.maintenance {
        Some(AuthError::Maintenance)
    } else if user_agent_verdict(meta.release, meta.user_agent) is Some {
        user_agent_verdict(meta.release, meta.user_agent)
    } else if userlist_verdict(st.config, aid) is Some {
        userlist_verdict(st.config, aid)
    } else {
        match user_ip_verdict(st, meta) {
            Err(e) => Some(e),
            Ok(ip) => if ip_ratelimited(st, ip, now) {
                Some(AuthError::RateLimited)
            } else {
                None
            },
        }
    }
}

/// Checks the user agent of a request.
pub fn check_user_agent(release: bool, ua: &Option<String>) -> (r: Result<(), AuthError>)
    ensures
        match user_agent_verdict(release, *ua) {
            Some(e) => r == Err::<(), AuthError>(e),
            None => r is Ok,
        },
{
    match ua {
        None => Err(AuthError::MissingUserAgent),
        Some(u) => {
            if release {
                let text = chars_of(u.as_str());
                let tag = chars_of("globed-geode-xd");
                if !starts_with(text.as_slice(), tag.as_slice()) {
                    return Err(AuthError::BadUserAgent);
                }
            }
            Ok(())
        },
    }
}

/// Finds the address that a request is accounted to.
pub fn resolve_user_ip(st: &ServerState, meta: &RequestMeta) -> (r: Result<u128, AuthError>)
    ensures
        r == user_ip_verdict(*st, *meta),
{
    if st.config.cloudflare_protection && meta.release {
        if !st.ip_blocker.is_allowed(meta.peer_ip) {
            return Err(AuthError::UntrustedPeer);
        }
        match meta.forwarded_ip {
            Some(ip) => Ok(ip),
            None => Err(AuthError::BadIpHeader),
        }
    } else {
        Ok(meta.peer_ip)
    }
}

/// Applies the userlist to `aid`.
pub fn check_userlist(cfg: &ServerConfig, aid: i32) -> (r: Result<(), AuthError>)
    ensures
        match userlist_verdict(*cfg, aid) {
            Some(e) => r == Err::<(), AuthError>(e),
            None => r is Ok,
        },
{
    if should_block(aid, cfg.userlist_mode, &cfg.userlist) {
        if cfg.userlist_mode == UserlistMode::Blacklist {
            Err(AuthError::Blacklisted)
        } else {
            Err(AuthError::NotWhitelisted)
        }
    } else {
        Ok(())
    }
}

fn start_response(cfg: &ServerConfig, value: &String) -> (r: String)
    ensures
        r@ == start_body(*cfg, value@),
{
    let mut out = if cfg.use_gd_api {
        decimal(cfg.challenge_level)
    } else {
        String::from_str("none")
    };
    out.append(":");
    out.append(value.as_str());
    proof {
        reveal_strlit(":");
        assert(out@ =~= start_body(*cfg, value@));
    }
    out
}

/// Hands out a challenge for `aid` to the requesting address: the one the
/// account already holds there, or a fresh one.
pub fn challenge_start(st: &mut ServerState, meta: &RequestMeta, aid: i32, now: u64) -> (r: Result<String, AuthError>)
    ensures
        final(st).config == old(st).config,
        final(st).ip_blocker == old(st).ip_blocker,
        final(st).login_attempts == old(st).login_attempts,
        match start_gate(*old(st), *meta, aid, now) {
            Some(e) => r == Err::<String, AuthError>(e) && final(st).challenges@ == old(st).challenges@,
            None => {
                let ip = user_ip_verdict(*old(st), *meta)->Ok_0;
                let before = old(st).challenges@;
                let expiry = old(st).config.challenge_expiry as u64;
                if before.contains_key(ip) && before[ip].account_id == aid {
                    &&& r matches Ok(b) && b@ == start_body(old(st).config, before[ip].value)
                    &&& final(st).challenges@ == before
                } else if before.contains_key(ip) && !challenge_expired(before[ip], now, expiry) {
                    &&& r == Err::<String, AuthError>(AuthError::ChallengeBusy)
                    &&& final(st).challenges@ == before
                } else {
                    let v = final(st).challenges@[ip].value;
                    &&& valid_challenge_value(v)
                    &&& r matches Ok(b) && b@ == start_body(old(st).config, v)
                    &&& final(st).challenges@ == before.insert(
                        ip,
                        ChallengeView { started: now, value: v, account_id: aid },
                    )
                }
            },
        },
{
    if st.config.maintenance {
        return Err(AuthError::Maintenance);
    }
    check_user_agent(meta.release, &meta.user_agent)?;
    check_userlist(&st.config, aid)?;
    let ip = resolve_user_ip(st, meta)?;
    if st.login_attempts.is_ratelimited(ip, now, st.config.challenge_ratelimit) {
        return Err(AuthError::RateLimited);
    }
    let expiry = st.config.challenge_expiry as u64;
    match st.challenges.start(ip, aid, now, expiry) {
        Ok((value, _reused)) => Ok(start_response(&st.config, &value)),
        Err(_) => Err(AuthError::ChallengeBusy),
    }
}

/// The client's clock, when it sent one, is too far from ours.
pub open spec fn clock_off(systime: u64, now: u64) -> bool {
    systime != 0 && (systime - now > MAX_CLOCK_SKEW || now - systime > MAX_CLOCK_SKEW)
}

/// A client clock 45 seconds off either way passes; 46 seconds off is refused.
pub proof fn lemma_clock_skew_boundary(now: u64)
    requires
        47 <= now,
        now <= u64::MAX - 46,
    ensures
        !clock_off((now + 45) as u64, now),
        !clock_off((now - 45) as u64, now),
        clock_off((now + 46) as u64, now),
        clock_off((now - 46) as u64, now),
{
}

/// The refusal that `challenge_finish` gives before it looks at challenges.
pub open spec fn finish_gate(st: ServerState, meta: RequestMeta, systime: u64, now: u64) -> Option<AuthError> {
    if st.config.maintenance {
        Some(AuthError::Maintenance)
    } else if user_agent_verdict(meta.release, meta.user_agent) is Some {
        user_agent_verdict(meta.release, meta.user_agent)
    } else if clock_off(systime, now) {
        Some(AuthError::ClockOutOfSync)
    } else {
        match user_ip_verdict(st, meta) {
            Err(e) => Some(e),
            Ok(ip) => None,
        }
    }
}

/// The answer that hands out an authkey, after the given comment id.
pub open spec fn authkey_body(prefix: Seq<char>, key: Seq<u8>) -> Seq<char> {
    prefix + seq![':'] + b64_of(key)
}

/// A challenge that passed its first check and now waits for the comment
/// that proves it.
pub struct PendingProof {
    pub ip: u128,
    pub challenge: String,
    pub level: i32,
}

/// The first stage of a challenge answer: either the answer itself, or the
/// comment lookup that has to come first.
pub enum FinishStep {
    Done(String),
    FetchComments(PendingProof),
}

/// Checks the answer to a challenge. Without the comment API the answer alone
/// proves the account; with it, the login attempt is recorded and the caller
/// is sent to fetch the comments, to be handed to `challenge_finish_comments`.
pub fn challenge_finish(
    st: &mut ServerState,
    meta: &RequestMeta,
    aid: i32,
    aname: &str,
    answer: &str,
    systime: u64,
    now: u64,
) -> (r: Result<FinishStep, AuthError>)
    ensures
        final(st).config == old(st).config,
        final(st).ip_blocker == old(st).ip_blocker,
        r matches Ok(FinishStep::Done(_)) ==> !final(st).challenges@.contains_key(
            user_ip_verdict(*old(st), *meta)->Ok_0,
        ),
        match finish_gate(*old(st), *meta, systime, now) {
            Some(e) => r == Err::<FinishStep, AuthError>(e) && final(st).challenges@ == old(st).challenges@
                && final(st).login_attempts@ == old(st).login_attempts@,
            None => {
                let ip = user_ip_verdict(*old(st), *meta)->Ok_0;
                let before = old(st).challenges@;
                let cfg = old(st).config;
                if !before.contains_key(ip) {
                    r == Err::<FinishStep, AuthError>(AuthError::NoChallenge) && final(st).challenges@
                        == before && final(st).login_attempts@ == old(st).login_attempts@
                } else if before[ip].account_id != aid {
                    r == Err::<FinishStep, AuthError>(AuthError::WrongAccount) && final(st).challenges@
                        == before && final(st).login_attempts@ == old(st).login_attempts@
                } else if !code_accepted(encode_utf8(before[ip].value), encode_utf8(answer@), now) {
                    r == Err::<FinishStep, AuthError>(AuthError::WrongAnswer) && final(st).challenges@
                        == before && final(st).login_attempts@ == old(st).login_attempts@
                } else if !cfg.use_gd_api {
                    &&& r matches Ok(FinishStep::Done(b)) && b@ == authkey_body(
                        "none"@,
                        authkey_of(cfg.secret_key@, cfg.secret_key2@, aid, aname@),
                    )
                    &&& final(st).challenges@ == before.remove(ip)
                    &&& final(st).login_attempts@ == old(st).login_attempts@
                } else if ip_ratelimited(*old(st), ip, now) {
                    r == Err::<FinishStep, AuthError>(AuthError::TooManyAttempts) && final(st).challenges@
                        == before && final(st).login_attempts@ == old(st).login_attempts@
                } else {
                    &&& r matches Ok(FinishStep::FetchComments(p)) && p.ip == ip && p.challenge@
                        == before[ip].value && p.level == cfg.challenge_level
                    &&& final(st).challenges@ == before
                    &&& final(st).login_attempts@ == old(st).login_attempts@.insert(
                        ip,
                        recent_attempts(attempts_of(old(st).login_attempts@, ip), now).push(now),
                    )
                }
            },
        },
{
    if st.config.maintenance {
        return Err(AuthError::Maintenance);
    }
    check_user_agent(meta.release, &meta.user_agent)?;
    if systime != 0 {
        let diff = if systime > now {
            systime - now
        } else {
            now - systime
        };
        if diff > MAX_CLOCK_SKEW {
            return Err(AuthError::ClockOutOfSync);
        }
    }
    let ip = resolve_user_ip(st, meta)?;
    let challenge = match st.challenges.get(ip) {
        Some(c) => c,
        None => {
            return Err(AuthError::NoChallenge);
        },
    };
    if challenge.account_id != aid {
        return Err(AuthError::WrongAccount);
    }
    if !verify_totp(challenge.value.as_str().as_bytes(), answer.as_bytes(), now) {
        return Err(AuthError::WrongAnswer);
    }
    if !st.config.use_gd_api {
        st.challenges.remove(ip);
        let key = derive_authkey(st.config.secret_key.as_str(), st.config.secret_key2.as_str(), aid, aname);
        let mut out = String::from_str("none");
        out.append(":");
        let encoded = b64_encode(key.as_slice());
        out.append(encoded.as_str());
        proof {
            reveal_strlit(":");
        }
        return Ok(FinishStep::Done(out));
    }
    if st.login_attempts.record_login_attempt(ip, now, st.config.challenge_ratelimit).is_err() {
        return Err(AuthError::TooManyAttempts);
    }
    Ok(FinishStep::FetchComments(PendingProof { ip, challenge: challenge.value, level: st.config.challenge_level }))
}

/// The form posted to the comment API to list the comments of `level`.
pub open spec fn comment_form(level: i32) -> Seq<(Seq<char>, Seq<char>)> {
    seq![
        ("levelID"@, decimal_of(level as int)),
        ("page"@, "0"@),
        ("secret"@, "Wmfd2893gb7"@),
        ("gameVersion"@, "22"@),
        ("binaryVersion"@, "38"@),
        ("gdw"@, "0"@),
        ("mode"@, "0"@),
        ("total"@, "0"@),
    ]
}

fn form_field(key: &str, value: String) -> (r: (String, String))
    ensures
        r.0@ == key@,
        r.1@ == value@,
{
    (String::from_str(key), value)
}

/// Builds the form that asks the comment API for the comments of `level`.
pub fn comment_request_form(level: i32) -> (r: Vec<(String, String)>)
    ensures
        r@.map_values(|p: (String, String)| (p.0@, p.1@)) == comment_form(level),
{
    let mut v: Vec<(String, String)> = Vec::new();
    v.push(form_field("levelID", decimal(level)));
    v.push(form_field("page", String::from_str("0")));
    v.push(form_field("secret", String::from_str("Wmfd2893gb7")));
    v.push(form_field("gameVersion", String::from_str("22")));
    v.push(form_field("binaryVersion", String::from_str("38")));
    v.push(form_field("gdw", String::from_str("0")));
    v.push(form_field("mode", String::from_str("0")));
    v.push(form_field("total", String::from_str("0")));
    proof {
        assert(v@.map_values(|p: (String, String)| (p.0@, p.1@)) =~= comment_form(level));
    }
    v
}

/// The comment records of an answer of the comment API: the text before the
/// first `#`, split at every `|`.
pub open spec fn comment_records(body: Seq<char>) -> Seq<Seq<char>> {
    let head = match first_of(body, '#') {
        Some(i) => body.take(i),
        None => body,
    };
    split_seq(head, '|')
}

/// Most comment records that one answer of the comment API is searched for.
pub const MAX_COMMENT_RECORDS: usize = 50;

/// The records that are searched: the first `MAX_COMMENT_RECORDS` of them.
pub open spec fn capped_records(body: Seq<char>) -> Seq<Seq<char>> {
    let r = comment_records(body);
    if r.len() > MAX_COMMENT_RECORDS {
        r.take(MAX_COMMENT_RECORDS as int)
    } else {
        r
    }
}

/// The comment id and author name of a record that proves the challenge for
/// `aid` and the lowercased name `lname`, if it does.
pub open spec fn record_proof(rec: Seq<char>, aid: i32, lname: Seq<char>, key: Seq<u8>, now: u64) -> Option<
    (Seq<char>, Seq<char>),
> {
    match first_of(rec, ':') {
        None => None,
        Some(c) => {
            let comment = rec.take(c);
            let author = rec.skip(c + 1);
            match (
                robtop_get(comment, "2"@),
                robtop_get(author, "1"@),
                robtop_get(author, "16"@),
                robtop_get(comment, "6"@),
            ) {
                (Some(text), Some(name), Some(id), Some(cid)) => {
                    if i32_of(id) == Some(aid) && lower_of(name) == lname && match b64url_decoded(text) {
                        Some(b) => b.len() >= 6 && code_accepted(key, b.take(6), now),
                        None => false,
                    } {
                        Some((cid, name))
                    } else {
                        None
                    }
                },
                _ => None,
            }
        },
    }
}

/// The proof given by the first record that holds one.
pub open spec fn first_proof(recs: Seq<Seq<char>>, aid: i32, lname: Seq<char>, key: Seq<u8>, now: u64) -> Option<
    (Seq<char>, Seq<char>),
>
    decreases recs.len(),
{
    if recs.len() == 0 {
        None
    } else {
        match record_proof(recs[0], aid, lname, key, now) {
            Some(x) => Some(x),
            None => first_proof(recs.drop_first(), aid, lname, key, now),
        }
    }
}

/// Looks for the proof of a challenge in one comment record.
pub fn match_record(rec: &[char], aid: i32, lname: &String, key: &[u8], now: u64) -> (r: Option<(Vec<char>, Vec<char>)>)
    ensures
        match r {
            Some((cid, name)) => record_proof(rec@, aid, lname@, key@, now) == Some((cid@, name@)),
            None => record_proof(rec@, aid, lname@, key@, now) is None,
        },
{
    let c = match find_first(rec, ':') {
        Some(c) => c,
        None => {
            return None;
        },
    };
    let n = rec.len();
    assert(c < n);
    let comment = slice_chars(rec, 0, c);
    let author = slice_chars(rec, c + 1, n);
    proof {
        assert(comment@ =~= rec@.take(c as int));
        assert(author@ =~= rec@.skip(c + 1));
    }
    let k_text = chars_of("2");
    let k_name = chars_of("1");
    let k_id = chars_of("16");
    let k_cid = chars_of("6");
    let text = robtop_lookup(comment.as_slice(), k_text.as_slice());
    let name = robtop_lookup(author.as_slice(), k_name.as_slice());
    let id = robtop_lookup(author.as_slice(), k_id.as_slice());
    let cid = robtop_lookup(comment.as_slice(), k_cid.as_slice());
    match (text, name, id, cid) {
        (Some(text), Some(name), Some(id), Some(cid)) => {
            match parse_i32(id.as_slice()) {
                Some(v) => {
                    if v != aid {
                        return None;
                    }
                },
                None => {
                    return None;
                },
            }
            let lower = lowercase(name.as_slice());
            if lower != *lname {
                return None;
            }
            let decoded = match b64url_decode(text.as_slice()) {
                Some(d) => d,
                None => {
                    proof {
                        assert(b64url_decoded(text@) is None);
                    }
                    return None;
                },
            };
            proof {
                assert(b64url_decoded(text@) == Some(decoded@));
            }
            if decoded.len() < 6 {
                return None;
            }
            let head = slice_u8(decoded.as_slice(), 6);
            if !verify_totp(key, head.as_slice(), now) {
                return None;
            }
            Some((cid, name))
        },
        _ => None,
    }
}

/// The first `n` bytes of `b`.
fn slice_u8(b: &[u8], n: usize) -> (r: Vec<u8>)
    requires
        n <= b@.len(),
    ensures
        r@ == b@.take(n as int),
{
    let mut out: Vec<u8> = Vec::new();
    let mut i: usize = 0;
    while i < n
        invariant
            i <= n <= b@.len(),
            out@ == b@.take(i as int),
        decreases n - i,
    {
        out.push(b[i]);
        i = i + 1;
        proof {
            assert(out@ =~= b@.take(i as int));
        }
    }
    out
}

/// Finds the comment that proves a challenge in an answer of the comment API.
pub fn find_proof(body: &str, aid: i32, aname: &str, key: &[u8], now: u64) -> (r: Option<(Vec<char>, Vec<char>)>)
    ensures
        match r {
            Some((cid, name)) => first_proof(capped_records(body@), aid, lower_of(aname@), key@, now)
                == Some((cid@, name@)),
            None => first_proof(capped_records(body@), aid, lower_of(aname@), key@, now) is None,
        },
{
    let all = chars_of(body);
    let head = match find_first(all.as_slice(), '#') {
        Some(i) => slice_chars(all.as_slice(), 0, i),
        None => all,
    };
    proof {
        match first_of(body@, '#') {
            Some(i) => assert(head@ =~= body@.take(i)),
            None => {},
        }
    }
    let recs = split_chars(head.as_slice(), '|');
    let limit = if recs.len() > MAX_COMMENT_RECORDS {
        MAX_COMMENT_RECORDS
    } else {
        recs.len()
    };
    let ghost rs = recs@.map_values(|v: Vec<char>| v@).take(limit as int);
    proof {
        assert(rs =~= capped_records(body@));
    }
    let name_chars = chars_of(aname);
    let lname = lowercase(name_chars.as_slice());
    let mut i: usize = 0;
    proof {
        assert(rs.skip(0) =~= rs);
    }
    while i < limit
        invariant
            i <= limit <= recs@.len(),
            rs == recs@.map_values(|v: Vec<char>| v@).take(limit as int),
            rs == capped_records(body@),
            lname@ == lower_of(aname@),
            first_proof(rs, aid, lname@, key@, now) == first_proof(rs.skip(i as int), aid, lname@, key@, now),
        decreases limit - i,
    {
        let found = match_record(recs[i].as_slice(), aid, &lname, key, now);
        proof {
            assert(rs.skip(i as int)[0] == recs@[i as int]@);
            assert(rs.skip(i as int).drop_first() =~= rs.skip(i + 1));
        }
        if found.is_some() {
            return found;
        }
        i = i + 1;
    }
    proof {
        assert(rs.skip(i as int).len() == 0);
    }
    None
}

/// Finishes a challenge from the answer of the comment API: the first comment
/// by the account that carries a correct answer proves it.
pub fn challenge_finish_comments(
    st: &mut ServerState,
    pending: &PendingProof,
    aid: i32,
    aname: &str,
    response: &str,
    now: u64,
) -> (r: Result<String, AuthError>)
    ensures
        final(st).config == old(st).config,
        final(st).ip_blocker == old(st).ip_blocker,
        final(st).login_attempts == old(st).login_attempts,
        r is Ok ==> !final(st).challenges@.contains_key(pending.ip),
        response@ == "-1"@ ==> r == Err::<String, AuthError>(AuthError::UpstreamDown)
            && final(st).challenges@ == old(st).challenges@,
        response@ != "-1"@ ==> match first_proof(
            capped_records(response@),
            aid,
            lower_of(aname@),
            encode_utf8(pending.challenge@),
            now,
        ) {
            None => r == Err::<String, AuthError>(AuthError::NoMatchingComment) && final(st).challenges@
                == old(st).challenges@,
            Some((cid, name)) => {
                &&& r matches Ok(b) && b@ == authkey_body(
                    cid,
                    authkey_of(old(st).config.secret_key@, old(st).config.secret_key2@, aid, name),
                )
                &&& final(st).challenges@ == old(st).challenges@.remove(pending.ip)
            },
        },
{
    let body = chars_of(response);
    let down = chars_of("-1");
    if chars_equal(body.as_slice(), down.as_slice()) {
        return Err(AuthError::UpstreamDown);
    }
    match find_proof(response, aid, aname, pending.challenge.as_str().as_bytes(), now) {
        None => Err(AuthError::NoMatchingComment),
        Some((cid, name)) => {
            st.challenges.remove(pending.ip);
            let name_text = collect_chars(name.as_slice());
            let key = derive_authkey(
                st.config.secret_key.as_str(),
                st.config.secret_key2.as_str(),
                aid,
                name_text.as_str(),
            );
            let mut out = collect_chars(cid.as_slice());
            out.append(":");
            let encoded = b64_encode(key.as_slice());
            out.append(encoded.as_str());
            proof {
                reveal_strlit(":");
            }
            Ok(out)
        },
    }
}

/// Logs an account in with a code derived from its authkey, and mints its
/// session token.
pub fn totp_login(st: &ServerState, meta: &RequestMeta, aid: i32, aname: &str, code: &str, now: u64) -> (r: Result<String, AuthError>)
    ensures
        match start_gate(*st, *meta, aid, now) {
            Some(e) => r == Err::<String, AuthError>(e),
            None => if code_accepted(
                authkey_of(st.config.secret_key@, st.config.secret_key2@, aid, aname@),
                encode_utf8(code@),
                now,
            ) {
                r matches Ok(t) && t@ == token_text(
                    st.config.game_server_password@,
                    token_payload(aid, aname@, now),
                )
            } else {
                r == Err::<String, AuthError>(AuthError::LoginFailed)
            },
        },
{
    if st.config.maintenance {
        return Err(AuthError::Maintenance);
    }
    check_user_agent(meta.release, &meta.user_agent)?;
    check_userlist(&st.config, aid)?;
    let ip = resolve_user_ip(st, meta)?;
    if st.login_attempts.is_ratelimited(ip, now, st.config.challenge_ratelimit) {
        return Err(AuthError::RateLimited);
    }
    let key = derive_authkey(st.config.secret_key.as_str(), st.config.secret_key2.as_str(), aid, aname);
    if !verify_totp(key.as_slice(), code.as_bytes(), now) {
        return Err(AuthError::LoginFailed);
    }
    let issuer = TokenIssuer::new(st.config.game_server_password.clone(), st.config.token_expiry);
    Ok(issuer.generate(aid, aname, now))
}

} // verus!

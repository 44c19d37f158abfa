use vstd::prelude::*;

use crate::error::PacketHandlingError;
use crate::keys::{authkey_of, derive_authkey};
use crate::policy::{policy_rejects, should_block, UserlistMode};
use crate::parse::chars_equal;
use crate::text::chars_of;
use crate::token::{token_check, TokenIssuer};
use vstd::string::StringExecFns;

verus! {

/// Where a relay connection stands in its handshake.
#[derive(PartialEq, Eq, Structural, Debug, Clone, Copy)]
pub enum SessionState {
    Unauthenticated,
    Authenticating,
    Established,
    Closed,
}

/// What a relay shares with the central service, and its per-connection limits.
pub struct RelaySettings {
    pub secret_key: String,
    pub secret_key2: String,
    pub issuer: TokenIssuer,
    pub userlist_mode: UserlistMode,
    pub userlist: Vec<i32>,
    /// Largest packet, in bytes, that a peer may announce.
    pub max_packet_size: usize,
    /// Most packets a peer may send within one second.
    pub max_packets_per_second: u32,
}

/// The session of one connected peer.
pub struct PeerSession {
    pub state: SessionState,
    pub account_id: i32,
    /// The authkey of the account, once the handshake is through.
    pub shared_key: Vec<u8>,
    pub window_start: u64,
    pub packets_in_window: u32,
}

/// Refuses a packet whose announced size is over the ceiling, before anything
/// is allocated for it.
pub fn check_packet_size(size: usize, ceiling: usize) -> (r: Result<(), PacketHandlingError>)
    ensures
        size > ceiling ==> (r matches Err(PacketHandlingError::DangerousAllocation(s)) && s == size),
        size <= ceiling ==> r is Ok,
{
    if size > ceiling {
        Err(PacketHandlingError::DangerousAllocation(size))
    } else {
        Ok(())
    }
}

impl PeerSession {
    pub fn new() -> (r: PeerSession)
        ensures
            r.state == SessionState::Unauthenticated,
            r.shared_key@.len() == 0,
    {
        PeerSession {
            state: SessionState::Unauthenticated,
            account_id: 0,
            shared_key: Vec::new(),
            window_start: 0,
            packets_in_window: 0,
        }
    }

    /// A login packet arrived: only an unauthenticated peer may start a handshake.
    pub fn begin_handshake(&mut self) -> (r: Result<(), PacketHandlingError>)
        ensures
            old(self).state == SessionState::Unauthenticated ==> r is Ok && final(self).state
                == SessionState::Authenticating,
            old(self).state != SessionState::Unauthenticated ==> (r matches Err(
                PacketHandlingError::WrongCryptoBoxState,
            ) && final(self).state == old(self).state),
            final(self).shared_key@ == old(self).shared_key@,
    {
        if self.state != SessionState::Unauthenticated {
            return Err(PacketHandlingError::WrongCryptoBoxState);
        }
        self.state = SessionState::Authenticating;
        Ok(())
    }

    /// Completes the handshake of a peer that claims the account `(aid, aname)`
    /// with a session token: the token must name that very account, and the
    /// userlist must let it in. Then the shared key is the account's authkey.
    /// A failed handshake closes the session.
    pub fn complete_handshake(
        &mut self,
        settings: &RelaySettings,
        aid: i32,
        aname: &str,
        token: &str,
        now: u64,
    ) -> (r: Result<(), PacketHandlingError>)
        ensures
            old(self).state != SessionState::Authenticating ==> (r matches Err(
                PacketHandlingError::WrongCryptoBoxState,
            ) && final(self).state == old(self).state),
            old(self).state == SessionState::Authenticating ==> {
                let ok = token_check(token@, settings.issuer.secret@, now, settings.issuer.expiry)
                    == Ok::<(i32, Seq<char>), crate::token::TokenError>((aid, aname@))
                    && !policy_rejects(aid, settings.userlist_mode, settings.userlist@);
                &&& ok ==> r is Ok && final(self).state == SessionState::Established
                    && final(self).account_id == aid && final(self).shared_key@ == authkey_of(
                    settings.secret_key@,
                    settings.secret_key2@,
                    aid,
                    aname@,
                )
                &&& !ok ==> r is Err && final(self).state == SessionState::Closed
            },
    {
        if self.state != SessionState::Authenticating {
            return Err(PacketHandlingError::WrongCryptoBoxState);
        }
        let (tid, tname) = match settings.issuer.validate(token, now) {
            Ok(v) => v,
            Err(_) => {
                self.state = SessionState::Closed;
                return Err(PacketHandlingError::MalformedLoginAttempt);
            },
        };
        let claimed = chars_of(aname);
        let named = chars_of(tname.as_str());
        if tid != aid || !chars_equal(named.as_slice(), claimed.as_slice()) {
            self.state = SessionState::Closed;
            return Err(PacketHandlingError::MalformedLoginAttempt);
        }
        if should_block(aid, settings.userlist_mode, &settings.userlist) {
            self.state = SessionState::Closed;
            return Err(PacketHandlingError::Other(String::from_str("account is not allowed on this server")));
        }
        self.shared_key = derive_authkey(settings.secret_key.as_str(), settings.secret_key2.as_str(), aid, aname);
        self.account_id = aid;
        self.state = SessionState::Established;
        Ok(())
    }

    /// Admits a gameplay packet of the announced size at `now`: the size is
    /// checked first, then the session must be established and within its
    /// packet rate; a peer over the rate is disconnected.
    pub fn admit_packet(&mut self, settings: &RelaySettings, size: usize, now: u64) -> (r: Result<(), PacketHandlingError>)
        ensures
            size > settings.max_packet_size ==> (r matches Err(PacketHandlingError::DangerousAllocation(s))
                && s == size && final(self).state == old(self).state),
            size <= settings.max_packet_size && old(self).state != SessionState::Established ==> (r matches Err(
                PacketHandlingError::WrongCryptoBoxState,
            ) && final(self).state == old(self).state),
            size <= settings.max_packet_size && old(self).state == SessionState::Established ==> {
                let used = if old(self).window_start == now {
                    old(self).packets_in_window as int
                } else {
                    0
                };
                &&& used < settings.max_packets_per_second ==> r is Ok && final(self).state
                    == SessionState::Established && final(self).window_start == now
                    && final(self).packets_in_window == used + 1
                &&& used >= settings.max_packets_per_second ==> (r matches Err(
                    PacketHandlingError::Ratelimited,
                ) && final(self).state == SessionState::Closed)
            },
            final(self).shared_key@ == old(self).shared_key@,
    {
        check_packet_size(size, settings.max_packet_size)?;
        if self.state != SessionState::Established {
            return Err(PacketHandlingError::WrongCryptoBoxState);
        }
        if self.window_start != now {
            self.window_start = now;
            self.packets_in_window = 0;
        }
        if self.packets_in_window >= settings.max_packets_per_second {
            self.state = SessionState::Closed;
            return Err(PacketHandlingError::Ratelimited);
        }
        self.packets_in_window = self.packets_in_window + 1;
        Ok(())
    }

    /// Ends the session.
    pub fn close(&mut self)
        ensures
            final(self).state == SessionState::Closed,
    {
        self.state = SessionState::Closed;
    }
}

} // verus!

use vstd::prelude::*;

use std::collections::HashMap;

use crate::crypto::{is_alnum, random_alphanumeric};
use vstd::std_specs::iter::IteratorSpec;

verus! {

broadcast use vstd::std_specs::hash::group_hash_axioms;

/// Number of characters in a challenge value.
pub const CHALLENGE_LENGTH: usize = 32;

/// A challenge handed to a client, waiting for its answer.
pub struct ActiveChallenge {
    /// Unix time, in seconds, at which it was issued.
    pub started: u64,
    pub value: String,
    pub account_id: i32,
}

/// What a challenge holds, as plain values.
pub struct ChallengeView {
    pub started: u64,
    pub value: Seq<char>,
    pub account_id: i32,
}

impl View for ActiveChallenge {
    type V = ChallengeView;

    open spec fn view(&self) -> ChallengeView {
        ChallengeView { started: self.started, value: self.value@, account_id: self.account_id }
    }
}

impl ActiveChallenge {
    /// A copy of this challenge.
    pub fn duplicate(&self) -> (r: ActiveChallenge)
        ensures
            r@ == self@,
    {
        ActiveChallenge {
            started: self.started,
            value: self.value.clone(),
            account_id: self.account_id,
        }
    }
}

/// A challenge issued at `c.started` is over at `now`.
pub open spec fn challenge_expired(c: ChallengeView, now: u64, expiry: u64) -> bool {
    now - c.started >= expiry
}

/// A challenge is old enough for the periodic sweep to drop it.
pub open spec fn challenge_stale(c: ChallengeView, now: u64, expiry: u64) -> bool {
    now - c.started > expiry
}

/// A fresh challenge value: 32 ASCII letters and digits.
pub open spec fn valid_challenge_value(v: Seq<char>) -> bool {
    v.len() == 32 && forall|i: int| 0 <= i < v.len() ==> is_alnum(#[trigger] v[i])
}

/// Why a challenge could not be started.
#[derive(PartialEq, Eq, Structural, Debug, Clone, Copy)]
pub enum ChallengeError {
    /// Another account holds an unexpired challenge for this address.
    Busy,
}

/// The challenges in flight, at most one per client address (an address is
/// an IPv6 address as a number, IPv4 addresses in their mapped form).
pub struct ChallengeStore {
    pub challenges: HashMap<u128, ActiveChallenge>,
}

impl View for ChallengeStore {
    type V = Map<u128, ChallengeView>;

    open spec fn view(&self) -> Map<u128, ChallengeView> {
        self.challenges@.map_values(|c: ActiveChallenge| c@)
    }
}

impl ChallengeStore {
    pub fn new() -> (r: ChallengeStore)
        ensures
            r@ == Map::<u128, ChallengeView>::empty(),
    {
        let r = ChallengeStore { challenges: HashMap::new() };
        proof {
            assert(r@ =~= Map::<u128, ChallengeView>::empty());
        }
        r
    }

    /// The challenge held for `ip`, if any.
    pub fn get(&self, ip: u128) -> (r: Option<ActiveChallenge>)
        ensures
            match r {
                Some(c) => self@.contains_key(ip) && c@ == self@[ip],
                None => !self@.contains_key(ip),
            },
    {
        match self.challenges.get(&ip) {
            Some(c) => Some(c.duplicate()),
            None => None,
        }
    }

    /// Drops the challenge held for `ip`.
    pub fn remove(&mut self, ip: u128)
        ensures
            final(self)@ == old(self)@.remove(ip),
    {
        self.challenges.remove(&ip);
        proof {
            assert(final(self)@ =~= old(self)@.remove(ip));
        }
    }

    /// Starts a challenge for `aid` at `ip`, or hands back the one that the same
    /// account already holds there. The flag tells whether it was reused.
    pub fn start(&mut self, ip: u128, aid: i32, now: u64, expiry: u64) -> (r: Result<
        (String, bool),
        ChallengeError,
    >)
        ensures
            old(self)@.contains_key(ip) && old(self)@[ip].account_id == aid ==> {
                &&& r matches Ok((v, reused)) && reused && v@ == old(self)@[ip].value
                &&& final(self)@ == old(self)@
            },
            old(self)@.contains_key(ip) && old(self)@[ip].account_id != aid && !challenge_expired(
                old(self)@[ip],
                now,
                expiry,
            ) ==> {
                &&& r == Err::<(String, bool), ChallengeError>(ChallengeError::Busy)
                &&& final(self)@ == old(self)@
            },
            !old(self)@.contains_key(ip) || (old(self)@[ip].account_id != aid && challenge_expired(
                old(self)@[ip],
                now,
                expiry,
            )) ==> {
                &&& r matches Ok((v, reused)) && !reused && valid_challenge_value(v@)
                &&& final(self)@ == old(self)@.insert(
                    ip,
                    ChallengeView { started: now, value: r->Ok_0.0@, account_id: aid },
                )
            },
    {
        match self.challenges.get(&ip) {
            Some(c) => {
                if c.account_id == aid {
                    return Ok((c.value.clone(), true));
                }
                if !(now >= c.started && now - c.started >= expiry) {
                    return Err(ChallengeError::Busy);
                }
            },
            None => {},
        }
        let value = random_alphanumeric(CHALLENGE_LENGTH);
        let challenge = ActiveChallenge { started: now, value: value.clone(), account_id: aid };
        self.challenges.insert(ip, challenge);
        proof {
            assert(final(self)@ =~= old(self)@.insert(
                ip,
                ChallengeView { started: now, value: value@, account_id: aid },
            ));
        }
        Ok((value, false))
    }

    /// Drops every challenge that is older than `expiry` at `now`.
    pub fn sweep(&mut self, now: u64, expiry: u64)
        ensures
            forall|ip: u128|
                #![trigger final(self)@.contains_key(ip)]
                final(self)@.contains_key(ip) <==> (old(self)@.contains_key(ip) && !challenge_stale(
                    old(self)@[ip],
                    now,
                    expiry,
                )),
            forall|ip: u128| #[trigger] final(self)@.contains_key(ip) ==> final(self)@[ip] == old(self)@[ip],
    {
        let mut keys: Vec<u128> = Vec::new();
        let ghost full = vstd::std_specs::hash::spec_keys_iter(&self.challenges).remaining();
        proof {
            vstd::std_specs::hash::axiom_spec_keys_iter(&self.challenges);
        }
        for k in it: self.challenges.keys()
            invariant
                it.seq() == full,
                keys@ == full.take(it.index() as int).unref(),
        {
            keys.push(*k);
            proof {
                assert(keys@ =~= full.take(it.index() + 1).unref());
            }
        }
        proof {
            assert(keys@ =~= full.unref());
        }
        let ghost start = self@;
        assert forall|k: u128| start.contains_key(k) implies keys@.contains(k) by {
            assert(self.challenges@.dom().contains(k));
        }
        let mut i: usize = 0;
        while i < keys.len()
            invariant
                i <= keys@.len(),
                forall|k: u128| start.contains_key(k) ==> keys@.contains(k),
                forall|k: u128| #[trigger] self@.contains_key(k) ==> start.contains_key(k) && self@[k] == start[k],
                forall|k: u128|
                    start.contains_key(k) && !challenge_stale(start[k], now, expiry)
                        ==> #[trigger] self@.contains_key(k),
                forall|j: int|
                    0 <= j < i && #[trigger] self@.contains_key(keys@[j]) ==> !challenge_stale(
                        start[keys@[j]],
                        now,
                        expiry,
                    ),
            decreases keys@.len() - i,
        {
            let k = keys[i];
            let stale = match self.challenges.get(&k) {
                Some(c) => now >= c.started && now - c.started > expiry,
                None => false,
            };
            proof {
                if stale {
                    assert(self@.contains_key(k));
                    assert(self@[k] == self.challenges@[k]@);
                    assert(challenge_stale(start[k], now, expiry));
                }
            }
            if stale {
                let ghost prev = self@;
                self.challenges.remove(&k);
                proof {
                    assert(self@ =~= prev.remove(k));
                }
            }
            i = i + 1;
        }
        proof {
            assert forall|k: u128| #[trigger] self@.contains_key(k) implies !challenge_stale(start[k], now, expiry) by {
                let j = keys@.index_of(k);
                assert(0 <= j < keys@.len());
            }
        }
    }
}

/// At any time the store holds at most one challenge for an address: starting
/// a challenge at `ip` leaves exactly the one it reports there, and every
/// other address as it was.
pub proof fn lemma_one_challenge_per_ip(before: Map<u128, ChallengeView>, ip: u128, c: ChallengeView)
    ensures
        before.insert(ip, c).contains_key(ip),
        before.insert(ip, c)[ip] == c,
        forall|other: u128| other != ip ==> before.insert(ip, c).contains_key(other) == before.contains_key(other),
{
}

} // verus!

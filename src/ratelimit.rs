use vstd::prelude::*;

use std::collections::HashMap;

use vstd::std_specs::iter::IteratorSpec;

verus! {

broadcast use vstd::std_specs::hash::group_hash_axioms;

/// Length of the window that login attempts are counted in, in seconds.
pub const ATTEMPT_WINDOW: u64 = 60;

/// An attempt made at `t` still counts at `now`.
pub open spec fn attempt_recent(t: u64, now: u64) -> bool {
    now - t < ATTEMPT_WINDOW
}

/// The attempts of `s` that still count at `now`, in order.
pub open spec fn recent_attempts(s: Seq<u64>, now: u64) -> Seq<u64> {
    s.filter(|t: u64| attempt_recent(t, now))
}

/// The attempts recorded for `ip`; none where nothing was recorded.
pub open spec fn attempts_of(m: Map<u128, Seq<u64>>, ip: u128) -> Seq<u64> {
    if m.contains_key(ip) {
        m[ip]
    } else {
        Seq::empty()
    }
}

/// Why a login attempt was refused.
#[derive(PartialEq, Eq, Structural, Debug, Clone, Copy)]
pub enum RateLimitError {
    /// The address used up its attempts for the current window.
    TooManyAttempts,
}

/// Per-address record of login attempts over a sliding window.
pub struct LoginLimiter {
    pub attempts: HashMap<u128, Vec<u64>>,
}

impl View for LoginLimiter {
    type V = Map<u128, Seq<u64>>;

    open spec fn view(&self) -> Map<u128, Seq<u64>> {
        self.attempts@.map_values(|v: Vec<u64>| v@)
    }
}

/// The attempts of `s` that still count at `now`.
fn recent_of(s: &Vec<u64>, now: u64) -> (r: Vec<u64>)
    ensures
        r@ == recent_attempts(s@, now),
{
    let mut kept: Vec<u64> = Vec::new();
    let mut i: usize = 0;
    while i < s.len()
        invariant
            i <= s@.len(),
            kept@ == recent_attempts(s@.take(i as int), now),
        decreases s@.len() - i,
    {
        proof {
            reveal(Seq::filter);
            assert(s@.take(i + 1).drop_last() =~= s@.take(i as int));
        }
        let t = s[i];
        if now >= t && now - t < ATTEMPT_WINDOW || now < t {
            kept.push(t);
        }
        i = i + 1;
    }
    proof {
        assert(s@.take(i as int) =~= s@);
    }
    kept
}

impl LoginLimiter {
    pub fn new() -> (r: LoginLimiter)
        ensures
            r@ == Map::<u128, Seq<u64>>::empty(),
    {
        let r = LoginLimiter { attempts: HashMap::new() };
        proof {
            assert(r@ =~= Map::<u128, Seq<u64>>::empty());
        }
        r
    }

    /// Whether `ip` has used up its `limit` attempts of the window ending at `now`.
    pub fn is_ratelimited(&self, ip: u128, now: u64, limit: u64) -> (r: bool)
        ensures
            r == (recent_attempts(attempts_of(self@, ip), now).len() >= limit),
    {
        match self.attempts.get(&ip) {
            Some(v) => {
                let recent = recent_of(v, now);
                recent.len() as u64 >= limit
            },
            None => {
                proof {
                    reveal(Seq::filter);
                }
                0 >= limit
            },
        }
    }

    /// Records an attempt of `ip` at `now`, unless it has used up its `limit`
    /// attempts of the window. Attempts that no longer count are dropped.
    pub fn record_login_attempt(&mut self, ip: u128, now: u64, limit: u64) -> (r: Result<(), RateLimitError>)
        ensures
            recent_attempts(attempts_of(old(self)@, ip), now).len() >= limit ==> {
                &&& r == Err::<(), RateLimitError>(RateLimitError::TooManyAttempts)
                &&& final(self)@ == old(self)@
            },
            recent_attempts(attempts_of(old(self)@, ip), now).len() < limit ==> {
                &&& r is Ok
                &&& final(self)@ == old(self)@.insert(
                    ip,
                    recent_attempts(attempts_of(old(self)@, ip), now).push(now),
                )
            },
    {
        let mut recent = match self.attempts.get(&ip) {
            Some(v) => recent_of(v, now),
            None => {
                proof {
                    reveal(Seq::filter);
                    assert(recent_attempts(Seq::<u64>::empty(), now) =~= Seq::<u64>::empty());
                }
                Vec::new()
            },
        };
        if recent.len() as u64 >= limit {
            return Err(RateLimitError::TooManyAttempts);
        }
        recent.push(now);
        let ghost pushed = recent@;
        self.attempts.insert(ip, recent);
        proof {
            assert(final(self)@ =~= old(self)@.insert(ip, pushed));
        }
        Ok(())
    }
    /// Forgets every address that has no attempt still counting at `now`.
    pub fn sweep(&mut self, now: u64)
        ensures
            forall|ip: u128|
                #![trigger final(self)@.contains_key(ip)]
                final(self)@.contains_key(ip) <==> (old(self)@.contains_key(ip) && recent_attempts(
                    old(self)@[ip],
                    now,
                ).len() > 0),
            forall|ip: u128| #[trigger] final(self)@.contains_key(ip) ==> final(self)@[ip] == old(self)@[ip],
    {
        let mut keys: Vec<u128> = Vec::new();
        let ghost full = vstd::std_specs::hash::spec_keys_iter(&self.attempts).remaining();
        proof {
            vstd::std_specs::hash::axiom_spec_keys_iter(&self.attempts);
        }
        for k in it: self.attempts.keys()
            invariant
                it.seq() == full,
                keys@ == full.take(it.index() as int).unref(),
        {
            keys.push(*k);
            proof {
                assert(keys@ =~= full.take(it.index() + 1).unref());
            }
        }
        proof {
            assert(keys@ =~= full.unref());
        }
        let ghost start = self@;
        assert forall|k: u128| start.contains_key(k) implies keys@.contains(k) by {
            assert(self.attempts@.dom().contains(k));
        }
        let mut i: usize = 0;
        while i < keys.len()
            invariant
                i <= keys@.len(),
                forall|k: u128| start.contains_key(k) ==> keys@.contains(k),
                forall|k: u128| #[trigger] self@.contains_key(k) ==> start.contains_key(k) && self@[k] == start[k],
                forall|k: u128|
                    start.contains_key(k) && recent_attempts(start[k], now).len() > 0
                        ==> #[trigger] self@.contains_key(k),
                forall|j: int|
                    0 <= j < i && #[trigger] self@.contains_key(keys@[j]) ==> recent_attempts(
                        start[keys@[j]],
                        now,
                    ).len() > 0,
            decreases keys@.len() - i,
        {
            let k = keys[i];
            let idle = match self.attempts.get(&k) {
                Some(v) => recent_of(v, now).len() == 0,
                None => false,
            };
            proof {
                if idle {
                    assert(self@.contains_key(k));
                    assert(self@[k] == self.attempts@[k]@);
                }
            }
            if idle {
                let ghost prev = self@;
                self.attempts.remove(&k);
                proof {
                    assert(self@ =~= prev.remove(k));
                }
            }
            i = i + 1;
        }
        proof {
            assert forall|k: u128| #[trigger] self@.contains_key(k) implies recent_attempts(start[k], now).len() > 0 by {
                let j = keys@.index_of(k);
                assert(0 <= j < keys@.len());
            }
        }
    }
}

} // verus!

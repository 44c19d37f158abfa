use vstd::prelude::*;

use crate::crypto::{b64url_decode, b64url_encode, b64url_of, hmac_sha256, hmac_sha256_of, utf8_string};
use crate::keys::{append_bytes, bytes_equal, i32_le, u64_le};
use crate::text::chars_of;
use vstd::utf8::{decode_utf8, encode_utf8, valid_utf8};

verus! {

/// How far in the future a token's issue time may lie, in seconds.
pub const TOKEN_CLOCK_SKEW: u64 = 60;

/// Why a session token was turned away.
#[derive(PartialEq, Eq, Structural, Debug, Clone, Copy)]
pub enum TokenError {
    MalformedToken,
    BadSignature,
    Expired,
}

/// The signed bytes of a token: account id, name and issue time.
pub open spec fn token_payload(aid: i32, name: Seq<char>, issued_at: u64) -> Seq<u8> {
    i32_le(aid) + encode_utf8(name) + u64_le(issued_at)
}

/// The tag of a payload under the shared password.
pub open spec fn token_mac(password: Seq<char>, payload: Seq<u8>) -> Seq<u8> {
    hmac_sha256_of(encode_utf8(password), payload)
}

/// The text of the token that carries `payload`.
pub open spec fn token_text(password: Seq<char>, payload: Seq<u8>) -> Seq<char> {
    b64url_of(payload) + seq!['.'] + b64url_of(token_mac(password, payload))
}

/// The account id stored at the front of a payload.
pub open spec fn payload_aid(p: Seq<u8>) -> i32 {
    ((p[0] as u32) | (p[1] as u32) << 8u32 | (p[2] as u32) << 16u32 | (p[3] as u32) << 24u32) as i32
}

/// The issue time stored at the end of a payload.
pub open spec fn payload_issued_at(p: Seq<u8>) -> u64 {
    let n = p.len() - 8;
    (p[n] as u64) | (p[n + 1] as u64) << 8u64 | (p[n + 2] as u64) << 16u64 | (p[n + 3] as u64)
        << 24u64 | (p[n + 4] as u64) << 32u64 | (p[n + 5] as u64) << 40u64 | (p[n + 6] as u64)
        << 48u64 | (p[n + 7] as u64) << 56u64
}

/// The name bytes between the account id and the issue time.
pub open spec fn payload_name(p: Seq<u8>) -> Seq<u8> {
    p.subrange(4, p.len() - 8)
}

/// A token issued at `issued_at` is still good at `now`.
pub open spec fn token_fresh(issued_at: u64, now: u64, expiry: u64) -> bool {
    now - issued_at <= expiry && issued_at - now <= TOKEN_CLOCK_SKEW
}

/// The bytes whose URL-safe base64 text is `text`, if any.
pub open spec fn b64url_decoded(text: Seq<char>) -> Option<Seq<u8>> {
    if exists|b: Seq<u8>| b64url_of(b) == text {
        Some(choose|b: Seq<u8>| b64url_of(b) == text)
    } else {
        None
    }
}

/// `i` is the position of the first `.` in `t`.
pub open spec fn is_first_dot(t: Seq<char>, i: int) -> bool {
    0 <= i < t.len() && t[i] == '.' && forall|j: int| 0 <= j < i ==> t[j] != '.'
}

/// What checking the token text `t` gives: the account it names, or why it is
/// refused.
pub open spec fn token_check(t: Seq<char>, password: Seq<char>, now: u64, expiry: u64) -> Result<
    (i32, Seq<char>),
    TokenError,
> {
    if exists|i: int| is_first_dot(t, i) {
        let i = choose|i: int| is_first_dot(t, i);
        match (b64url_decoded(t.take(i)), b64url_decoded(t.skip(i + 1))) {
            (Some(p), Some(m)) => {
                if p.len() < 12 {
                    Err(TokenError::MalformedToken)
                } else if m != token_mac(password, p) {
                    Err(TokenError::BadSignature)
                } else if !valid_utf8(payload_name(p)) {
                    Err(TokenError::MalformedToken)
                } else if !token_fresh(payload_issued_at(p), now, expiry) {
                    Err(TokenError::Expired)
                } else {
                    Ok((payload_aid(p), decode_utf8(payload_name(p))))
                }
            },
            _ => Err(TokenError::MalformedToken),
        }
    } else {
        Err(TokenError::MalformedToken)
    }
}

/// Issues and checks session tokens under the password shared with the relays.
pub struct TokenIssuer {
    pub secret: String,
    pub expiry: u64,
}

impl TokenIssuer {
    pub fn new(secret: String, expiry: u64) -> (r: TokenIssuer)
        ensures
            r.secret@ == secret@,
            r.expiry == expiry,
    {
        TokenIssuer { secret, expiry }
    }

    /// Mints the token of an account, issued at `now`. Checked at any later
    /// time, it names the same account while it is fresh and is expired after.
    pub fn generate(&self, aid: i32, aname: &str, now: u64) -> (r: String)
        ensures
            r@ == token_text(self.secret@, token_payload(aid, aname@, now)),
            forall|t: u64, expiry: u64|
                #[trigger] token_check(r@, self.secret@, t, expiry) == if token_fresh(now, t, expiry) {
                    Ok::<(i32, Seq<char>), TokenError>((aid, aname@))
                } else {
                    Err(TokenError::Expired)
                },
    {
        let mut payload: Vec<u8> = Vec::new();
        let x = aid as u32;
        payload.push(x as u8);
        payload.push((x >> 8u32) as u8);
        payload.push((x >> 16u32) as u8);
        payload.push((x >> 24u32) as u8);
        append_bytes(&mut payload, aname.as_bytes());
        payload.push(now as u8);
        payload.push((now >> 8u64) as u8);
        payload.push((now >> 16u64) as u8);
        payload.push((now >> 24u64) as u8);
        payload.push((now >> 32u64) as u8);
        payload.push((now >> 40u64) as u8);
        payload.push((now >> 48u64) as u8);
        payload.push((now >> 56u64) as u8);
        let ghost p = token_payload(aid, aname@, now);
        proof {
            assert(payload@ =~= p);
        }
        let mac = hmac_sha256(self.secret.as_str().as_bytes(), payload.as_slice());
        let mut out = b64url_encode(payload.as_slice());
        let tail = b64url_encode(mac.as_slice());
        let ghost left = out@;
        let ghost right = tail@;
        out.append(".");
        out.append(tail.as_str());
        proof {
            reveal_strlit(".");
            let t = out@;
            assert(t =~= left + seq!['.'] + right);
            lemma_minted_check(t, left, right, self.secret@, aid, aname@, now);
        }
        out
    }
    /// Checks a token at time `now`, giving back the account that it names.
    pub fn validate(&self, token: &str, now: u64) -> (r: Result<(i32, String), TokenError>)
        ensures
            match r {
                Ok((aid, name)) => token_check(token@, self.secret@, now, self.expiry) == Ok::<
                    (i32, Seq<char>),
                    TokenError,
                >((aid, name@)),
                Err(e) => token_check(token@, self.secret@, now, self.expiry) == Err::<
                    (i32, Seq<char>),
                    TokenError,
                >(e),
            },
    {
        let t = chars_of(token);
        let mut i: usize = 0;
        while i < t.len() && t[i] != '.'
            invariant
                i <= t@.len(),
                forall|j: int| 0 <= j < i ==> t@[j] != '.',
            decreases t@.len() - i,
        {
            i = i + 1;
        }
        if i == t.len() {
            proof {
                assert forall|k: int| !is_first_dot(token@, k) by {
                    if is_first_dot(token@, k) {
                        assert(t@[k] == '.');
                    }
                }
            }
            return Err(TokenError::MalformedToken);
        }
        proof {
            assert(is_first_dot(token@, i as int));
            assert forall|k: int| is_first_dot(token@, k) implies k == i by {
                if k < i {
                    assert(t@[k] != '.');
                }
                if k > i {
                    assert(t@[i as int] == '.');
                }
            }
        }
        let mut left: Vec<char> = Vec::new();
        let mut right: Vec<char> = Vec::new();
        let mut j: usize = 0;
        while j < t.len()
            invariant
                j <= t@.len(),
                i < t@.len(),
                left@ == t@.take(if j < i { j as int } else { i as int }),
                right@ == if j <= i { Seq::<char>::empty() } else { t@.subrange(i + 1, j as int) },
            decreases t@.len() - j,
        {
            if j < i {
                left.push(t[j]);
                proof {
                    assert(left@ =~= t@.take(j + 1));
                }
            } else if j > i {
                right.push(t[j]);
                proof {
                    assert(right@ =~= t@.subrange(i + 1, j + 1));
                }
            } else {
                proof {
                    assert(right@ =~= t@.subrange(i + 1, j + 1));
                }
            }
            j = j + 1;
        }
        proof {
            assert(right@ =~= t@.skip(i + 1));
        }
        let payload = match b64url_decode(left.as_slice()) {
            Some(p) => p,
            None => {
                return Err(TokenError::MalformedToken);
            },
        };
        let mac = match b64url_decode(right.as_slice()) {
            Some(m) => m,
            None => {
                return Err(TokenError::MalformedToken);
            },
        };
        proof {
            assert(b64url_decoded(left@) == Some(payload@));
            assert(b64url_decoded(right@) == Some(mac@));
        }
        let n = payload.len();
        if n < 12 {
            return Err(TokenError::MalformedToken);
        }
        let expected = hmac_sha256(self.secret.as_str().as_bytes(), payload.as_slice());
        if !bytes_equal(expected.as_slice(), mac.as_slice()) {
            return Err(TokenError::BadSignature);
        }
        let mut name_bytes: Vec<u8> = Vec::new();
        let mut k: usize = 4;
        while k < n - 8
            invariant
                4 <= k <= n - 8,
                n == payload@.len(),
                n >= 12,
                name_bytes@ == payload@.subrange(4, k as int),
            decreases n - 8 - k,
        {
            name_bytes.push(payload[k]);
            k = k + 1;
            proof {
                assert(name_bytes@ =~= payload@.subrange(4, k as int));
            }
        }
        let name = match utf8_string(name_bytes) {
            Some(s) => s,
            None => {
                return Err(TokenError::MalformedToken);
            },
        };
        proof {
            vstd::utf8::encode_utf8_decode_utf8(name@);
        }
        let aid = ((payload[0] as u32) | (payload[1] as u32) << 8u32 | (payload[2] as u32) << 16u32
            | (payload[3] as u32) << 24u32) as i32;
        let b = n - 8;
        let issued_at = (payload[b] as u64) | (payload[b + 1] as u64) << 8u64 | (payload[b + 2] as u64)
            << 16u64 | (payload[b + 3] as u64) << 24u64 | (payload[b + 4] as u64) << 32u64 | (
        payload[b + 5] as u64) << 40u64 | (payload[b + 6] as u64) << 48u64 | (payload[b + 7] as u64)
            << 56u64;
        let late = now >= issued_at && now - issued_at > self.expiry;
        let early = issued_at > now && issued_at - now > TOKEN_CLOCK_SKEW;
        if late || early {
            return Err(TokenError::Expired);
        }
        Ok((aid, name))
    }
}

proof fn lemma_minted_check(
    t: Seq<char>,
    left: Seq<char>,
    right: Seq<char>,
    password: Seq<char>,
    aid: i32,
    name: Seq<char>,
    now: u64,
)
    requires
        t == left + seq!['.'] + right,
        left == b64url_of(token_payload(aid, name, now)),
        right == b64url_of(token_mac(password, token_payload(aid, name, now))),
        forall|i: int| 0 <= i < left.len() ==> left[i] != '.',
        forall|c: Seq<u8>| #[trigger] b64url_of(c) == left ==> c == token_payload(aid, name, now),
        forall|c: Seq<u8>| #[trigger] b64url_of(c) == right ==> c == token_mac(
            password,
            token_payload(aid, name, now),
        ),
    ensures
        forall|t2: u64, expiry: u64|
            #[trigger] token_check(t, password, t2, expiry) == if token_fresh(now, t2, expiry) {
                Ok::<(i32, Seq<char>), TokenError>((aid, name))
            } else {
                Err(TokenError::Expired)
            },
{
    let p = token_payload(aid, name, now);
    let n = left.len() as int;
    assert(is_first_dot(t, n));
    assert forall|i: int| is_first_dot(t, i) implies i == n by {
        if i < n {
            assert(t[i] == left[i]);
        }
        if i > n {
            assert(t[n] == '.');
        }
    }
    assert(t.take(n) =~= left);
    assert(t.skip(n + 1) =~= right);
    assert(b64url_decoded(left) == Some(p));
    assert(b64url_decoded(right) == Some(token_mac(password, p)));
    let enc = encode_utf8(name);
    vstd::utf8::encode_utf8_valid_utf8(name);
    vstd::utf8::encode_utf8_decode_utf8(name);
    assert(payload_name(p) =~= enc);
    lemma_le_round_trip(aid, now);
    assert(p.subrange(0, 4) =~= i32_le(aid));
    assert(p.subrange(p.len() - 8, p.len() as int) =~= u64_le(now));
    assert(payload_aid(p) == aid);
    assert(payload_issued_at(p) == now);
}

proof fn lemma_le_round_trip(aid: i32, now: u64)
    ensures
        payload_aid(i32_le(aid)) == aid,
        payload_issued_at(u64_le(now)) == now,
{
    let x = aid as u32;
    assert(((x as u8) as u32) | ((x >> 8u32) as u8 as u32) << 8u32 | ((x >> 16u32) as u8 as u32)
        << 16u32 | ((x >> 24u32) as u8 as u32) << 24u32 == x) by (bit_vector);
    assert(((aid as u32) as i32) == aid) by (bit_vector);
    assert(((now as u8) as u64) | ((now >> 8u64) as u8 as u64) << 8u64 | ((now >> 16u64) as u8
        as u64) << 16u64 | ((now >> 24u64) as u8 as u64) << 24u64 | ((now >> 32u64) as u8 as u64)
        << 32u64 | ((now >> 40u64) as u8 as u64) << 40u64 | ((now >> 48u64) as u8 as u64) << 48u64
        | ((now >> 56u64) as u8 as u64) << 56u64 == now) by (bit_vector);
}

/// A token is accepted only if it is, character for character, the text that
/// the issuer produces for the payload it carries: changing any part of it
/// leaves a text whose tag no longer belongs to its payload.
pub proof fn lemma_accepted_token_is_signed(t: Seq<char>, password: Seq<char>, now: u64, expiry: u64)
    requires
        token_check(t, password, now, expiry) is Ok,
    ensures
        exists|p: Seq<u8>|
            #![trigger token_text(password, p)]
            t == token_text(password, p) && token_check(t, password, now, expiry) == Ok::<
                (i32, Seq<char>),
                TokenError,
            >((payload_aid(p), decode_utf8(payload_name(p)))),
{
    let i = choose|i: int| is_first_dot(t, i);
    let p = b64url_decoded(t.take(i))->0;
    let m = b64url_decoded(t.skip(i + 1))->0;
    assert(t =~= t.take(i) + seq!['.'] + t.skip(i + 1));
    assert(t == token_text(password, p));
}

} // verus!

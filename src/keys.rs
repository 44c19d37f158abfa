use vstd::prelude::*;

use crate::crypto::{hmac_sha256, hmac_sha256_of, lower_of, lowercase, sha256, sha256_of};
use crate::text::chars_of;
use vstd::utf8::encode_utf8;

verus! {

/// Length of one code step, in seconds.
pub const TOTP_STEP: u64 = 30;

/// Little-endian bytes of a 32-bit value.
pub open spec fn u32_le(x: u32) -> Seq<u8> {
    seq![x as u8, (x >> 8u32) as u8, (x >> 16u32) as u8, (x >> 24u32) as u8]
}

/// Little-endian bytes of a signed 32-bit value, in two's complement.
pub open spec fn i32_le(x: i32) -> Seq<u8> {
    u32_le(x as u32)
}

/// Little-endian bytes of a 64-bit value.
pub open spec fn u64_le(x: u64) -> Seq<u8> {
    seq![
        x as u8, (x >> 8u64) as u8, (x >> 16u64) as u8, (x >> 24u64) as u8,
        (x >> 32u64) as u8, (x >> 40u64) as u8, (x >> 48u64) as u8, (x >> 56u64) as u8,
    ]
}

/// Big-endian bytes of a 64-bit value.
pub open spec fn u64_be(x: u64) -> Seq<u8> {
    seq![
        (x >> 56u64) as u8, (x >> 48u64) as u8, (x >> 40u64) as u8, (x >> 32u64) as u8,
        (x >> 24u64) as u8, (x >> 16u64) as u8, (x >> 8u64) as u8, x as u8,
    ]
}

/// The bytes hashed into an authkey: both secrets, the account id and the
/// lowercased account name.
pub open spec fn authkey_input(sk: Seq<char>, sk2: Seq<char>, aid: i32, name: Seq<char>) -> Seq<u8> {
    encode_utf8(sk) + encode_utf8(sk2) + i32_le(aid) + encode_utf8(lower_of(name))
}

/// The authkey of an account under the given secrets.
pub open spec fn authkey_of(sk: Seq<char>, sk2: Seq<char>, aid: i32, name: Seq<char>) -> Seq<u8> {
    sha256_of(authkey_input(sk, sk2, aid, name))
}

/// Appends `b` to `v`.
pub fn append_bytes(v: &mut Vec<u8>, b: &[u8])
    ensures
        final(v)@ == old(v)@ + b@,
{
    let mut i: usize = 0;
    let ghost start = v@;
    while i < b.len()
        invariant
            i <= b@.len(),
            v@ == start + b@.take(i as int),
        decreases b@.len() - i,
    {
        v.push(b[i]);
        i = i + 1;
        proof {
            assert(b@.take(i as int) =~= b@.take(i - 1) .push(b@[i - 1]));
        }
    }
    proof {
        assert(b@.take(i as int) =~= b@);
    }
}

/// Derives the authkey shared by the central service and the relays.
pub fn derive_authkey(secret_key: &str, secret_key2: &str, aid: i32, aname: &str) -> (r: Vec<u8>)
    ensures
        r@ == authkey_of(secret_key@, secret_key2@, aid, aname@),
        r@.len() == 32,
{
    let mut data: Vec<u8> = Vec::new();
    append_bytes(&mut data, secret_key.as_bytes());
    append_bytes(&mut data, secret_key2.as_bytes());
    let x = aid as u32;
    data.push(x as u8);
    data.push((x >> 8u32) as u8);
    data.push((x >> 16u32) as u8);
    data.push((x >> 24u32) as u8);
    let name = chars_of(aname);
    let lower = lowercase(name.as_slice());
    append_bytes(&mut data, lower.as_str().as_bytes());
    proof {
        assert(data@ =~= authkey_input(secret_key@, secret_key2@, aid, aname@));
    }
    sha256(data.as_slice())
}

/// Dynamic truncation of a tag to a number below one million: four bytes read
/// big-endian at the offset given by the low nibble of the last byte, with the
/// top bit cleared.
pub open spec fn truncate_tag(h: Seq<u8>) -> u32 {
    let o = (h[h.len() - 1] & 0x0fu8) as int;
    (((h[o] & 0x7fu8) as u32) << 24u32 | (h[o + 1] as u32) << 16u32 | (h[o + 2] as u32) << 8u32
        | (h[o + 3] as u32)) % 1_000_000u32
}

/// The ASCII digit of a value below ten.
pub open spec fn digit(d: u32) -> u8 {
    (d + 48) as u8
}

/// Six ASCII decimal digits of `n`, zero-padded, most significant first.
pub open spec fn six_digits(n: u32) -> Seq<u8> {
    seq![
        digit((n / 100000) % 10), digit((n / 10000) % 10), digit((n / 1000) % 10),
        digit((n / 100) % 10), digit((n / 10) % 10), digit(n % 10),
    ]
}

/// The code of a key for one time step.
pub open spec fn totp_code(key: Seq<u8>, step: u64) -> Seq<u8> {
    six_digits(truncate_tag(hmac_sha256_of(key, u64_be(step))))
}

/// A code is accepted at time `now` when it is the code of the current step
/// or of one of the two steps beside it.
pub open spec fn code_accepted(key: Seq<u8>, code: Seq<u8>, now: u64) -> bool {
    let s = now / 30;
    code == totp_code(key, s) || code == totp_code(key, (s + 1) as u64) || (s >= 1 && code
        == totp_code(key, (s - 1) as u64))
}

/// Computes the code of `key` for time step `step`.
pub fn totp_at_step(key: &[u8], step: u64) -> (r: Vec<u8>)
    ensures
        r@ == totp_code(key@, step),
        r@.len() == 6,
{
    let mut msg: Vec<u8> = Vec::new();
    msg.push((step >> 56u64) as u8);
    msg.push((step >> 48u64) as u8);
    msg.push((step >> 40u64) as u8);
    msg.push((step >> 32u64) as u8);
    msg.push((step >> 24u64) as u8);
    msg.push((step >> 16u64) as u8);
    msg.push((step >> 8u64) as u8);
    msg.push(step as u8);
    proof {
        assert(msg@ =~= u64_be(step));
    }
    let h = hmac_sha256(key, msg.as_slice());
    let last = h[h.len() - 1];
    assert(last & 0x0fu8 <= 15) by (bit_vector);
    let o = (last & 0x0fu8) as usize;
    let n: u32 = (((h[o] & 0x7fu8) as u32) << 24u32 | (h[o + 1] as u32) << 16u32 | (h[o + 2] as u32)
        << 8u32 | (h[o + 3] as u32)) % 1_000_000u32;
    let mut out: Vec<u8> = Vec::new();
    out.push(((n / 100000) % 10 + 48) as u8);
    out.push(((n / 10000) % 10 + 48) as u8);
    out.push(((n / 1000) % 10 + 48) as u8);
    out.push(((n / 100) % 10 + 48) as u8);
    out.push(((n / 10) % 10 + 48) as u8);
    out.push((n % 10 + 48) as u8);
    proof {
        assert(out@ =~= totp_code(key@, step));
    }
    out
}

/// Computes the code of `key` at Unix time `now`.
pub fn generate_totp(key: &[u8], now: u64) -> (r: Vec<u8>)
    ensures
        r@ == totp_code(key@, now / 30),
{
    totp_at_step(key, now / TOTP_STEP)
}

/// Checks a code against the current step of `key` and the steps on either
/// side of it.
pub fn verify_totp(key: &[u8], code: &[u8], now: u64) -> (r: bool)
    ensures
        r == code_accepted(key@, code@, now),
{
    let s = now / TOTP_STEP;
    let cur = totp_at_step(key, s);
    let next = totp_at_step(key, s + 1);
    let at_cur = bytes_equal(&cur, code);
    let at_next = bytes_equal(&next, code);
    let mut at_prev = false;
    if s >= 1 {
        let prev = totp_at_step(key, s - 1);
        at_prev = bytes_equal(&prev, code);
    }
    at_cur || at_next || at_prev
}

/// Compares two byte strings, looking at every byte whatever the differences.
pub fn bytes_equal(a: &[u8], b: &[u8]) -> (r: bool)
    ensures
        r == (a@ == b@),
{
    if a.len() != b.len() {
        return false;
    }
    let mut diff: u8 = 0;
    let mut i: usize = 0;
    while i < a.len()
        invariant
            i <= a@.len(),
            a@.len() == b@.len(),
            (diff == 0) == (forall|j: int| 0 <= j < i ==> a@[j] == b@[j]),
        decreases a@.len() - i,
    {
        let ai = a[i];
        let bi = b[i];
        let x = ai ^ bi;
        assert((x == 0) == (ai == bi)) by (bit_vector)
            requires
                x == ai ^ bi,
        ;
        assert(((diff | x) == 0) == (diff == 0 && x == 0)) by (bit_vector);
        diff = diff | x;
        i = i + 1;
    }
    proof {
        if diff == 0 {
            assert(a@ =~= b@);
        }
    }
    diff == 0
}

/// A code made at any time within 30 seconds of `now`, before or after, is
/// accepted at `now`.
pub proof fn lemma_code_window(key: Seq<u8>, t: u64, now: u64)
    requires
        t <= now + 30,
        now <= t + 30,
    ensures
        code_accepted(key, totp_code(key, t / 30), now),
{
    let s = now / 30;
    assert(t / 30 <= s + 1 && s <= t / 30 + 1) by (nonlinear_arith)
        requires
            t <= now + 30,
            now <= t + 30,
            s == now / 30,
    ;
    if t / 30 + 1 == s {
        assert((s - 1) as u64 == t / 30);
    }
}

/// Outside the accepted window: a code that differs from the codes of every
/// time within 30 seconds of `now` is refused at `now`.
pub proof fn lemma_code_outside_window(key: Seq<u8>, code: Seq<u8>, now: u64)
    requires
        30 <= now,
        now <= u64::MAX - 30,
        code != totp_code(key, ((now - 30) as u64) / 30),
        code != totp_code(key, now / 30),
        code != totp_code(key, ((now + 30) as u64) / 30),
    ensures
        !code_accepted(key, code, now),
{
    let s = now / 30;
    assert(((now - 30) as u64) / 30 == s - 1 && ((now + 30) as u64) / 30 == s + 1) by (nonlinear_arith)
        requires
            s == now / 30,
            30 <= now,
            now <= u64::MAX - 30,
    ;
}

/// Names that lowercase alike give the same authkey, so logins that differ
/// only in the case of the name are judged alike.
pub proof fn lemma_authkey_ignores_case(
    sk: Seq<char>,
    sk2: Seq<char>,
    aid: i32,
    n1: Seq<char>,
    n2: Seq<char>,
)
    requires
        lower_of(n1) == lower_of(n2),
    ensures
        authkey_of(sk, sk2, aid, n1) == authkey_of(sk, sk2, aid, n2),
{
}

/// Equal inputs give equal authkeys: two services configured with the same
/// secrets derive the same key for an account.
pub proof fn lemma_authkey_deterministic(
    sk: Seq<char>,
    sk2: Seq<char>,
    aid: i32,
    name: Seq<char>,
    k1: Seq<u8>,
    k2: Seq<u8>,
)
    requires
        k1 == authkey_of(sk, sk2, aid, name),
        k2 == authkey_of(sk, sk2, aid, name),
    ensures
        k1 == k2,
{
}

} // verus!

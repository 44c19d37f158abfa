use vstd::prelude::*;

verus! {

/// The address `ip` lies in the block of `base` whose prefix is `len` bits.
pub open spec fn in_block(ip: u128, base: u128, len: u32) -> bool {
    len == 0 || (len <= 128 && (ip >> (128 - len) as u128) == (base >> (128 - len) as u128))
}

/// Some block of `ranges` holds `ip`.
pub open spec fn ranges_allow(ranges: Seq<(u128, u32)>, ip: u128) -> bool {
    exists|i: int| 0 <= i < ranges.len() && #[trigger] in_block(ip, ranges[i].0, ranges[i].1)
}

/// The IPv4-mapped IPv6 form of an IPv4 address, as a number.
pub open spec fn v4_mapped(a: u32) -> u128 {
    0xffff_0000_0000u128 | (a as u128)
}

/// The key under which an IPv4 address is kept: its IPv4-mapped IPv6 form.
pub fn ipv4_key(a: u32) -> (r: u128)
    ensures
        r == v4_mapped(a),
{
    0xffff_0000_0000u128 | (a as u128)
}

/// The address blocks of the trusted reverse proxy, each a base address and a
/// prefix length in bits.
pub struct IpBlocker {
    pub ranges: Vec<(u128, u32)>,
}

impl IpBlocker {
    pub fn new(ranges: Vec<(u128, u32)>) -> (r: IpBlocker)
        ensures
            r.ranges@ == ranges@,
    {
        IpBlocker { ranges }
    }

    /// Adds the IPv4 block `base/len` in its mapped form.
    pub fn add_v4(&mut self, base: u32, len: u32)
        requires
            len <= 32,
        ensures
            final(self).ranges@ == old(self).ranges@.push((v4_mapped(base), (len + 96) as u32)),
    {
        self.ranges.push((ipv4_key(base), len + 96));
    }

    /// Whether a peer at `ip` belongs to the trusted reverse proxy.
    pub fn is_allowed(&self, ip: u128) -> (r: bool)
        ensures
            r == ranges_allow(self.ranges@, ip),
    {
        let mut i: usize = 0;
        while i < self.ranges.len()
            invariant
                i <= self.ranges@.len(),
                forall|j: int| 0 <= j < i ==> !in_block(ip, #[trigger] self.ranges@[j].0, self.ranges@[j].1),
            decreases self.ranges@.len() - i,
        {
            let (base, len) = self.ranges[i];
            let hit = if len == 0 {
                true
            } else if len <= 128 {
                let sh = (128 - len) as u128;
                (ip >> sh) == (base >> sh)
            } else {
                false
            };
            if hit {
                proof {
                    assert(in_block(ip, self.ranges@[i as int].0, self.ranges@[i as int].1));
                }
                return true;
            }
            i = i + 1;
        }
        false
    }
}

} // verus!

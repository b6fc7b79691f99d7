//! Addresses, networks and sets of addresses.
//!
//! Addresses are plain integers: an IPv4 address is the 32-bit number of its four bytes, an
//! IPv6 address the 128-bit number of its sixteen. A network contains the addresses from its
//! first (all host bits clear) to its last (all host bits set). A set of addresses of one
//! family is a list of inclusive spans over 128-bit numbers.

use vstd::prelude::*;

verus! {

/// An address of either family.
#[derive(Debug, Clone, Copy, PartialEq, Eq, Structural)]
pub enum IpAddress {
    V4(u32),
    V6(u128),
}

/// An IPv4 network in CIDR form. A prefix length above 32 counts as 32.
#[derive(Debug, Clone, Copy, PartialEq, Eq, Structural)]
pub struct Net4 {
    pub addr: u32,
    pub prefix_len: u8,
}

/// An IPv6 network in CIDR form. A prefix length above 128 counts as 128.
#[derive(Debug, Clone, Copy, PartialEq, Eq, Structural)]
pub struct Net6 {
    pub addr: u128,
    pub prefix_len: u8,
}

/// A network of either family.
#[derive(Debug, Clone, Copy, PartialEq, Eq, Structural)]
pub enum IpNetwork {
    V4(Net4),
    V6(Net6),
}

/// The mask that keeps the first `len` bits of an IPv4 address.
pub open spec fn netmask4(len: u8) -> u32 {
    if len == 0 {
        0u32
    } else if len >= 32 {
        0xffff_ffffu32
    } else {
        0xffff_ffffu32 << ((32 - len) as u32)
    }
}

/// The mask that keeps the first `len` bits of an IPv6 address.
pub open spec fn netmask6(len: u8) -> u128 {
    if len == 0 {
        0u128
    } else if len >= 128 {
        0xffff_ffff_ffff_ffff_ffff_ffff_ffff_ffffu128
    } else {
        0xffff_ffff_ffff_ffff_ffff_ffff_ffff_ffffu128 << ((128 - len) as u128)
    }
}

impl Net4 {
    /// The first address of the network.
    pub open spec fn spec_network(&self) -> u32 {
        self.addr & netmask4(self.prefix_len)
    }

    /// The last address of the network.
    pub open spec fn spec_broadcast(&self) -> u32 {
        self.addr | !netmask4(self.prefix_len)
    }

    /// Whether `ip` lies between the first and the last address.
    pub open spec fn spec_contains(&self, ip: u32) -> bool {
        self.spec_network() <= ip <= self.spec_broadcast()
    }

    fn netmask(&self) -> (m: u32)
        ensures
            m == netmask4(self.prefix_len),
    {
        if self.prefix_len == 0 {
            0
        } else if self.prefix_len >= 32 {
            0xffff_ffff
        } else {
            0xffff_ffffu32 << ((32 - self.prefix_len) as u32)
        }
    }

    #[verifier::when_used_as_spec(spec_network)]
    pub fn network(&self) -> (a: u32)
        ensures
            a == self.spec_network(),
    {
        self.addr & self.netmask()
    }

    #[verifier::when_used_as_spec(spec_broadcast)]
    pub fn broadcast(&self) -> (a: u32)
        ensures
            a == self.spec_broadcast(),
    {
        self.addr | !self.netmask()
    }

    #[verifier::when_used_as_spec(spec_contains)]
    pub fn contains(&self, ip: u32) -> (b: bool)
        ensures
            b == self.spec_contains(ip),
    {
        self.network() <= ip && ip <= self.broadcast()
    }
}

impl Net6 {
    /// The first address of the network.
    pub open spec fn spec_network(&self) -> u128 {
        self.addr & netmask6(self.prefix_len)
    }

    /// The last address of the network.
    pub open spec fn spec_broadcast(&self) -> u128 {
        self.addr | !netmask6(self.prefix_len)
    }

    /// Whether `ip` lies between the first and the last address.
    pub open spec fn spec_contains(&self, ip: u128) -> bool {
        self.spec_network() <= ip <= self.spec_broadcast()
    }

    fn netmask(&self) -> (m: u128)
        ensures
            m == netmask6(self.prefix_len),
    {
        if self.prefix_len == 0 {
            0
        } else if self.prefix_len >= 128 {
            0xffff_ffff_ffff_ffff_ffff_ffff_ffff_ffff
        } else {
            0xffff_ffff_ffff_ffff_ffff_ffff_ffff_ffffu128 << ((128 - self.prefix_len) as u128)
        }
    }

    #[verifier::when_used_as_spec(spec_network)]
    pub fn network(&self) -> (a: u128)
        ensures
            a == self.spec_network(),
    {
        self.addr & self.netmask()
    }

    #[verifier::when_used_as_spec(spec_broadcast)]
    pub fn broadcast(&self) -> (a: u128)
        ensures
            a == self.spec_broadcast(),
    {
        self.addr | !self.netmask()
    }

    #[verifier::when_used_as_spec(spec_contains)]
    pub fn contains(&self, ip: u128) -> (b: bool)
        ensures
            b == self.spec_contains(ip),
    {
        self.network() <= ip && ip <= self.broadcast()
    }
}

impl IpNetwork {
    /// Whether `ip` is of the network's family and lies in it.
    pub open spec fn spec_contains(&self, ip: IpAddress) -> bool {
        match (*self, ip) {
            (IpNetwork::V4(n), IpAddress::V4(a)) => n.spec_contains(a),
            (IpNetwork::V6(n), IpAddress::V6(a)) => n.spec_contains(a),
            _ => false,
        }
    }

    #[verifier::when_used_as_spec(spec_contains)]
    pub fn contains(&self, ip: IpAddress) -> (b: bool)
        ensures
            b == self.spec_contains(ip),
    {
        match (*self, ip) {
            (IpNetwork::V4(n), IpAddress::V4(a)) => n.contains(a),
            (IpNetwork::V6(n), IpAddress::V6(a)) => n.contains(a),
            _ => false,
        }
    }
}

/// Whether one of the inclusive spans of `s` holds `x`.
pub open spec fn spans_hold(s: Seq<(u128, u128)>, x: u128) -> bool {
    exists|i: int| 0 <= i < s.len() && (#[trigger] s[i]).0 <= x <= s[i].1
}

/// A set of addresses of one family: the union of a list of inclusive spans.
#[derive(Debug)]
pub struct AddrRange {
    pub spans: Vec<(u128, u128)>,
}

/// One more span adds the numbers it holds and no others.
pub proof fn lemma_spans_push(s: Seq<(u128, u128)>, e: (u128, u128), x: u128)
    ensures
        spans_hold(s.push(e), x) <==> spans_hold(s, x) || e.0 <= x <= e.1,
{
    let t = s.push(e);
    if spans_hold(t, x) {
        let i = choose|i: int| 0 <= i < t.len() && (#[trigger] t[i]).0 <= x <= t[i].1;
        if i < s.len() {
            assert(s[i].0 <= x <= s[i].1);
        }
    }
    if spans_hold(s, x) {
        let i = choose|i: int| 0 <= i < s.len() && (#[trigger] s[i]).0 <= x <= s[i].1;
        assert(t[i].0 <= x <= t[i].1);
    }
    if e.0 <= x <= e.1 {
        assert(t[s.len() as int].0 <= x <= t[s.len() as int].1);
    }
}

/// The first `i + 1` spans hold what the first `i` hold and what span `i` holds.
pub proof fn lemma_spans_take(s: Seq<(u128, u128)>, i: int, x: u128)
    requires
        0 <= i < s.len(),
    ensures
        spans_hold(s.take(i + 1), x) <==> spans_hold(s.take(i), x) || s[i].0 <= x <= s[i].1,
{
    assert(s.take(i + 1) =~= s.take(i).push(s[i]));
    lemma_spans_push(s.take(i), s[i], x);
}

impl AddrRange {
    /// Whether the set holds `x`.
    pub open spec fn holds(&self, x: u128) -> bool {
        spans_hold(self.spans@, x)
    }

    /// The empty set.
    pub fn new() -> (r: Self)
        ensures
            forall|x: u128| !#[trigger] r.holds(x),
    {
        AddrRange { spans: Vec::new() }
    }

    /// Adds the numbers from `lo` to `hi`, both included.
    pub fn add(&mut self, lo: u128, hi: u128)
        ensures
            forall|x: u128| #[trigger]
                final(self).holds(x) <==> old(self).holds(x) || lo <= x <= hi,
    {
        self.spans.push((lo, hi));
        assert forall|x: u128| #[trigger] self.holds(x) <==> old(self).holds(x) || lo <= x <= hi by {
            lemma_spans_push(old(self).spans@, (lo, hi), x);
        }
    }

    /// Whether the set holds `x`.
    pub fn contains(&self, x: u128) -> (b: bool)
        ensures
            b == self.holds(x),
    {
        let mut i: usize = 0;
        while i < self.spans.len()
            invariant
                i <= self.spans@.len(),
                forall|j: int| 0 <= j < i ==> !((#[trigger] self.spans@[j]).0 <= x <= self.spans@[j].1),
            decreases self.spans@.len() - i,
        {
            if self.spans[i].0 <= x && x <= self.spans[i].1 {
                return true;
            }
            i += 1;
        }
        false
    }

    /// Adds what `other` holds.
    pub fn extend(&mut self, other: &AddrRange)
        ensures
            forall|x: u128| #[trigger]
                final(self).holds(x) <==> old(self).holds(x) || other.holds(x),
    {
        let mut j: usize = 0;
        while j < other.spans.len()
            invariant
                j <= other.spans@.len(),
                forall|x: u128| #[trigger]
                    spans_hold(self.spans@, x) <==> spans_hold(old(self).spans@, x) || spans_hold(
                        other.spans@.take(j as int),
                        x,
                    ),
            decreases other.spans@.len() - j,
        {
            let ghost before = self.spans@;
            self.spans.push(other.spans[j]);
            proof {
                assert forall|x: u128| #[trigger]
                    spans_hold(self.spans@, x) <==> spans_hold(old(self).spans@, x) || spans_hold(
                        other.spans@.take(j + 1),
                        x,
                    ) by {
                    lemma_spans_push(before, other.spans@[j as int], x);
                    lemma_spans_take(other.spans@, j as int, x);
                    assert(spans_hold(before, x) <==> spans_hold(old(self).spans@, x)
                        || spans_hold(other.spans@.take(j as int), x));
                }
            }
            j += 1;
        }
        proof {
            assert(other.spans@.take(other.spans@.len() as int) =~= other.spans@);
        }
    }

    /// The union: what either set holds.
    pub fn merge(&self, other: &AddrRange) -> (r: AddrRange)
        ensures
            forall|x: u128| #[trigger] r.holds(x) <==> self.holds(x) || other.holds(x),
    {
        let mut r = AddrRange::new();
        r.extend(self);
        r.extend(other);
        r
    }

    /// The intersection: what both sets hold.
    pub fn intersect(&self, other: &AddrRange) -> (r: AddrRange)
        ensures
            forall|x: u128| #[trigger] r.holds(x) <==> self.holds(x) && other.holds(x),
    {
        let mut out: Vec<(u128, u128)> = Vec::new();
        let mut i: usize = 0;
        while i < self.spans.len()
            invariant
                i <= self.spans@.len(),
                forall|x: u128| #[trigger]
                    spans_hold(out@, x) <==> spans_hold(self.spans@.take(i as int), x)
                        && spans_hold(other.spans@, x),
            decreases self.spans@.len() - i,
        {
            let a = self.spans[i];
            let ghost at_i = out@;
            let mut j: usize = 0;
            while j < other.spans.len()
                invariant
                    j <= other.spans@.len(),
                    i < self.spans@.len(),
                    a == self.spans@[i as int],
                    forall|x: u128| #[trigger]
                        spans_hold(out@, x) <==> spans_hold(at_i, x) || (a.0 <= x <= a.1
                            && spans_hold(other.spans@.take(j as int), x)),
                decreases other.spans@.len() - j,
            {
                let b = other.spans[j];
                let lo = if a.0 >= b.0 {
                    a.0
                } else {
                    b.0
                };
                let hi = if a.1 <= b.1 {
                    a.1
                } else {
                    b.1
                };
                let ghost before = out@;
                if lo <= hi {
                    out.push((lo, hi));
                }
                proof {
                    assert forall|x: u128| #[trigger]
                        spans_hold(out@, x) <==> spans_hold(at_i, x) || (a.0 <= x <= a.1
                            && spans_hold(other.spans@.take(j + 1), x)) by {
                        if lo <= hi {
                            lemma_spans_push(before, (lo, hi), x);
                        }
                        lemma_spans_take(other.spans@, j as int, x);
                        assert(spans_hold(before, x) <==> spans_hold(at_i, x) || (a.0 <= x <= a.1
                            && spans_hold(other.spans@.take(j as int), x)));
                    }
                }
                j += 1;
            }
            proof {
                assert(other.spans@.take(other.spans@.len() as int) =~= other.spans@);
                assert forall|x: u128| #[trigger]
                    spans_hold(out@, x) <==> spans_hold(self.spans@.take(i + 1), x) && spans_hold(
                        other.spans@,
                        x,
                    ) by {
                    lemma_spans_take(self.spans@, i as int, x);
                    assert(spans_hold(at_i, x) <==> spans_hold(self.spans@.take(i as int), x)
                        && spans_hold(other.spans@, x));
                }
            }
            i += 1;
        }
        proof {
            assert(self.spans@.take(self.spans@.len() as int) =~= self.spans@);
        }
        AddrRange { spans: out }
    }

    /// What the set holds outside the span from `lo` to `hi`.
    pub fn exclude_span(&self, lo: u128, hi: u128) -> (r: AddrRange)
        ensures
            forall|x: u128| #[trigger] r.holds(x) <==> self.holds(x) && !(lo <= x <= hi),
    {
        let mut out: Vec<(u128, u128)> = Vec::new();
        let mut i: usize = 0;
        while i < self.spans.len()
            invariant
                i <= self.spans@.len(),
                forall|x: u128| #[trigger]
                    spans_hold(out@, x) <==> spans_hold(self.spans@.take(i as int), x) && !(lo
                        <= x <= hi),
            decreases self.spans@.len() - i,
        {
            let a = self.spans[i];
            let ghost before = out@;
            if lo > hi || hi < a.0 || lo > a.1 {
                out.push(a);
                proof {
                    assert forall|x: u128| #[trigger]
                        spans_hold(out@, x) <==> spans_hold(self.spans@.take(i + 1), x) && !(lo
                            <= x <= hi) by {
                        lemma_spans_push(before, a, x);
                        lemma_spans_take(self.spans@, i as int, x);
                        assert(spans_hold(before, x) <==> spans_hold(
                            self.spans@.take(i as int),
                            x,
                        ) && !(lo <= x <= hi));
                    }
                }
            } else {
                let ghost mut mid = before;
                if a.0 < lo {
                    out.push((a.0, lo - 1));
                }
                proof {
                    mid = out@;
                }
                if hi < a.1 {
                    out.push((hi + 1, a.1));
                }
                proof {
                    assert forall|x: u128| #[trigger]
                        spans_hold(out@, x) <==> spans_hold(self.spans@.take(i + 1), x) && !(lo
                            <= x <= hi) by {
                        if a.0 < lo {
                            lemma_spans_push(before, (a.0, (lo - 1) as u128), x);
                        }
                        if hi < a.1 {
                            lemma_spans_push(mid, ((hi + 1) as u128, a.1), x);
                        }
                        lemma_spans_take(self.spans@, i as int, x);
                        assert(spans_hold(before, x) <==> spans_hold(
                            self.spans@.take(i as int),
                            x,
                        ) && !(lo <= x <= hi));
                    }
                }
            }
            i += 1;
        }
        proof {
            assert(self.spans@.take(self.spans@.len() as int) =~= self.spans@);
        }
        AddrRange { spans: out }
    }

    /// The difference: what this set holds and `other` does not.
    pub fn exclude(&self, other: &AddrRange) -> (r: AddrRange)
        ensures
            forall|x: u128| #[trigger] r.holds(x) <==> self.holds(x) && !other.holds(x),
    {
        let mut r = self.clone();
        let mut j: usize = 0;
        while j < other.spans.len()
            invariant
                j <= other.spans@.len(),
                forall|x: u128| #[trigger]
                    spans_hold(r.spans@, x) <==> spans_hold(self.spans@, x) && !spans_hold(
                        other.spans@.take(j as int),
                        x,
                    ),
            decreases other.spans@.len() - j,
        {
            let b = other.spans[j];
            let next = r.exclude_span(b.0, b.1);
            proof {
                assert forall|x: u128| #[trigger]
                    spans_hold(next.spans@, x) <==> spans_hold(self.spans@, x) && !spans_hold(
                        other.spans@.take(j + 1),
                        x,
                    ) by {
                    lemma_spans_take(other.spans@, j as int, x);
                    assert(next.holds(x) <==> r.holds(x) && !(b.0 <= x <= b.1));
                    assert(spans_hold(r.spans@, x) <==> spans_hold(self.spans@, x) && !spans_hold(
                        other.spans@.take(j as int),
                        x,
                    ));
                }
            }
            r = next;
            j += 1;
        }
        proof {
            assert(other.spans@.take(other.spans@.len() as int) =~= other.spans@);
        }
        r
    }
}

impl Clone for AddrRange {
    fn clone(&self) -> (r: Self)
        ensures
            r.spans@ == self.spans@,
    {
        let mut spans: Vec<(u128, u128)> = Vec::new();
        let mut i: usize = 0;
        while i < self.spans.len()
            invariant
                i <= self.spans@.len(),
                spans@ == self.spans@.take(i as int),
            decreases self.spans@.len() - i,
        {
            spans.push(self.spans[i]);
            assert(spans@ =~= self.spans@.take(i + 1));
            i += 1;
        }
        assert(self.spans@.take(self.spans@.len() as int) =~= self.spans@);
        AddrRange { spans }
    }
}

} // verus!

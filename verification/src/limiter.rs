//! Which incoming connections the server takes: none from a banned IP, and
//! at most a fixed number from any one IP over the server's life.
use vstd::prelude::*;
use crate::assoc::{assoc_map, keys_distinct, lemma_assoc_dom, lemma_assoc_entry, lemma_assoc_push, lemma_assoc_update};
use crate::message::IpKey;

verus! {

/// The most connections taken from one IP; further ones are refused.
pub const MAX_PORTS_PER_IP: u32 = 10;

/// What a `ConnectionLimiter` stands for: the banned IPs, and how many
/// connections were taken from each IP.
pub struct LimiterView {
    pub banned: Set<IpKey>,
    pub ports: Map<IpKey, u32>,
}

/// Whether a connection from `ip` is taken.
pub open spec fn accepts(g: LimiterView, ip: IpKey) -> bool {
    !g.banned.contains(ip) && !(g.ports.dom().contains(ip) && g.ports[ip] >= MAX_PORTS_PER_IP)
}

/// The counts after a connection from `ip` was offered.
pub open spec fn ports_after_offer(g: LimiterView, ip: IpKey) -> Map<IpKey, u32> {
    if g.banned.contains(ip) {
        g.ports
    } else if g.ports.dom().contains(ip) {
        if g.ports[ip] >= MAX_PORTS_PER_IP {
            g.ports
        } else {
            g.ports.insert(ip, (g.ports[ip] + 1) as u32)
        }
    } else {
        g.ports.insert(ip, 1)
    }
}

/// Counts the connections taken from each IP, and refuses banned or exhausted ones.
pub struct ConnectionLimiter {
    banned: Vec<IpKey>,
    ports: Vec<(IpKey, u32)>,
}

impl View for ConnectionLimiter {
    type V = LimiterView;

    closed spec fn view(&self) -> LimiterView {
        LimiterView { banned: self.banned@.to_set(), ports: assoc_map(self.ports@) }
    }
}

impl ConnectionLimiter {
    /// No IP occurs twice among the counts, and no count passes one more than the limit.
    pub closed spec fn wf(&self) -> bool {
        &&& keys_distinct(self.ports@)
        &&& forall|i: int| 0 <= i < self.ports@.len() ==> #[trigger] self.ports@[i].1 <= MAX_PORTS_PER_IP
    }

    pub fn new() -> (r: Self)
        ensures
            r.wf(),
            r@.banned == Set::<IpKey>::empty(),
            r@.ports == Map::<IpKey, u32>::empty(),
    {
        let r = ConnectionLimiter { banned: Vec::new(), ports: Vec::new() };
        assert(r@.banned =~= Set::<IpKey>::empty());
        r
    }

    /// Bans `ip`.
    pub fn ban(&mut self, ip: IpKey)
        requires
            old(self).wf(),
        ensures
            final(self).wf(),
            final(self)@.banned == old(self)@.banned.insert(ip),
            final(self)@.ports == old(self)@.ports,
    {
        let ghost before = self.banned@;
        self.banned.push(ip);
        proof {
            assert(self.banned@ == before.push(ip));
            assert(self.banned@.to_set() =~= before.to_set().insert(ip)) by {
                assert forall|x: IpKey| self.banned@.to_set().contains(x) <==> before.to_set().insert(ip).contains(x) by {
                    if self.banned@.contains(x) {
                        let k = choose|k: int| 0 <= k < self.banned@.len() && self.banned@[k] == x;
                        if k < before.len() {
                            assert(before[k] == x);
                        }
                    }
                    if before.contains(x) {
                        let k = choose|k: int| 0 <= k < before.len() && before[k] == x;
                        assert(self.banned@[k] == x);
                    }
                    if x == ip {
                        assert(self.banned@[before.len() as int] == ip);
                    }
                }
            }
        }
    }

    fn is_banned(&self, ip: IpKey) -> (r: bool)
        ensures
            r == self@.banned.contains(ip),
    {
        let mut i: usize = 0;
        while i < self.banned.len()
            invariant
                i <= self.banned@.len(),
                forall|j: int| 0 <= j < i ==> self.banned@[j] != ip,
            decreases self.banned@.len() - i,
        {
            if self.banned[i] == ip {
                assert(self.banned@.contains(ip));
                return true;
            }
            i = i + 1;
        }
        false
    }

    /// Offers a connection from `ip`: refuses it when `ip` is banned or has
    /// passed its count, and otherwise counts it and takes it.
    pub fn offer(&mut self, ip: IpKey) -> (r: bool)
        requires
            old(self).wf(),
        ensures
            final(self).wf(),
            r == accepts(old(self)@, ip),
            final(self)@.banned == old(self)@.banned,
            final(self)@.ports == ports_after_offer(old(self)@, ip),
    {
        if self.is_banned(ip) {
            return false;
        }
        let mut i: usize = 0;
        while i < self.ports.len()
            invariant
                self.wf(),
                *self == *old(self),
                !self@.banned.contains(ip),
                i <= self.ports@.len(),
                forall|j: int| 0 <= j < i ==> self.ports@[j].0 != ip,
            decreases self.ports@.len() - i,
        {
            if self.ports[i].0 == ip {
                proof {
                    lemma_assoc_entry(self.ports@, i as int);
                }
                let num = self.ports[i].1;
                if num >= MAX_PORTS_PER_IP {
                    return false;
                } else {
                    proof {
                        lemma_assoc_update(self.ports@, i as int, (num + 1) as u32);
                    }
                    let ghost before = self.ports@;
                    self.ports.set(i, (ip, num + 1));
                    assert forall|j: int| 0 <= j < self.ports@.len() implies #[trigger] self.ports@[j].1 <= MAX_PORTS_PER_IP by {
                        if j != i {
                            assert(self.ports@[j] == before[j]);
                        }
                    }
                    return true;
                }
            }
            i = i + 1;
        }
        proof {
            lemma_assoc_dom(self.ports@, ip);
            lemma_assoc_push(self.ports@, ip, 1);
        }
        let ghost before = self.ports@;
        self.ports.push((ip, 1));
        assert forall|j: int| 0 <= j < self.ports@.len() implies #[trigger] self.ports@[j].1 <= MAX_PORTS_PER_IP by {
            if j < before.len() {
                assert(self.ports@[j] == before[j]);
            }
        }
        true
    }
}

/// A banned IP is never taken, and no IP is taken more often than the limit
/// over the limiter's life: a taken connection is counted, and the count
/// stays within the limit.
pub proof fn law_limiter_bounds(g: LimiterView, ip: IpKey)
    ensures
        accepts(g, ip) ==> ports_after_offer(g, ip)[ip] <= MAX_PORTS_PER_IP,
        g.banned.contains(ip) ==> !accepts(g, ip),
        accepts(g, ip) ==> ports_after_offer(g, ip).dom().contains(ip)
            && ports_after_offer(g, ip)[ip] == (if g.ports.dom().contains(ip) { g.ports[ip] + 1 } else { 1 }),
        !accepts(g, ip) ==> ports_after_offer(g, ip) == g.ports,
{
}

} // verus!

verus! {

/// Whether a connection from `ip` is taken depends only on whether `ip` is
/// banned and on `ip`'s own count: a connection from an IP that is not banned
/// and was never counted is always taken and counted once, and the other
/// IPs' counts stay as they were, whatever else was counted.
pub proof fn law_limiter_own_ip(g1: LimiterView, g2: LimiterView, ip: IpKey)
    requires
        g1.banned.contains(ip) == g2.banned.contains(ip),
        g1.ports.dom().contains(ip) == g2.ports.dom().contains(ip),
        g1.ports.dom().contains(ip) ==> g1.ports[ip] == g2.ports[ip],
    ensures
        accepts(g1, ip) == accepts(g2, ip),
        !g1.banned.contains(ip) && !g1.ports.dom().contains(ip) ==> {
            &&& accepts(g1, ip)
            &&& ports_after_offer(g1, ip) == g1.ports.insert(ip, 1)
        },
        forall|other: IpKey| other != ip ==> {
            &&& (ports_after_offer(g1, ip).dom().contains(other) <==> g1.ports.dom().contains(other))
            &&& (g1.ports.dom().contains(other) ==> ports_after_offer(g1, ip)[other] == g1.ports[other])
        },
        accepts(g1, ip) <==> !g1.banned.contains(ip) && (!g1.ports.dom().contains(ip) || g1.ports[ip] < MAX_PORTS_PER_IP),
{
}

} // verus!

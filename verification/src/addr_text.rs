//! The text form of a peer address, as std's `Display` for `SocketAddr`
//! writes it: `a.b.c.d:port` for IPv4, and `[ip]:port` or `[ip%scope]:port`
//! for IPv6, whose IP takes its canonical short form (lower-case hex
//! segments, the first longest run of two or more zero segments written as
//! `::`, and IPv4-mapped addresses as `::ffff:a.b.c.d`).
use vstd::prelude::*;
use crate::message::PeerAddr;
use crate::utils::{decimal_digits, decimal_string};

verus! {

/// The character of the hex digit `d`, in lower case.
pub open spec fn hex_char(d: nat) -> char {
    if d < 10 { (48 + d) as char } else { (87 + d) as char }
}

/// The lower-case hex digits of `n`, without leading zeros.
pub open spec fn hex_digits(n: nat) -> Seq<char>
    decreases n,
{
    if n < 16 {
        seq![hex_char(n)]
    } else {
        hex_digits(n / 16).push(hex_char(n % 16))
    }
}

/// The last `count` base-65536 digits of `ip`, most significant first.
pub open spec fn segments(ip: nat, count: nat) -> Seq<nat>
    decreases count,
{
    if count == 0 {
        Seq::empty()
    } else {
        segments(ip / 65536, (count - 1) as nat).push(ip % 65536)
    }
}

proof fn lemma_segments_len(ip: nat, count: nat)
    ensures
        segments(ip, count).len() == count,
    decreases count,
{
    if count > 0 {
        lemma_segments_len(ip / 65536, (count - 1) as nat);
    }
}

/// Segments in hex, separated by colons.
pub open spec fn join_hex(s: Seq<nat>) -> Seq<char>
    decreases s.len(),
{
    if s.len() == 0 {
        Seq::empty()
    } else if s.len() == 1 {
        hex_digits(s[0])
    } else {
        join_hex(s.drop_last()) + seq![':'] + hex_digits(s.last())
    }
}

/// Scanning segments from the first: the start and length of the first
/// longest run of zeros, then of the run that the scan is in.
pub open spec fn zero_run(s: Seq<nat>) -> (int, int, int, int)
    decreases s.len(),
{
    if s.len() == 0 {
        (0, 0, 0, 0)
    } else {
        let (ls, ll, cs, cl) = zero_run(s.drop_last());
        if s.last() == 0 {
            let cs2 = if cl == 0 { s.len() - 1 } else { cs };
            let cl2 = cl + 1;
            if cl2 > ll { (cs2, cl2, cs2, cl2) } else { (ls, ll, cs2, cl2) }
        } else {
            (ls, ll, 0, 0)
        }
    }
}

/// The dotted form of an IPv4 address.
pub open spec fn v4_text(ip: nat) -> Seq<char> {
    decimal_digits((ip / 16777216) % 256) + seq!['.'] + decimal_digits((ip / 65536) % 256) + seq!['.']
        + decimal_digits((ip / 256) % 256) + seq!['.'] + decimal_digits(ip % 256)
}

/// The canonical short form of an IPv6 address.
pub open spec fn v6_text(ip: nat) -> Seq<char> {
    let s = segments(ip, 8);
    if s[0] == 0 && s[1] == 0 && s[2] == 0 && s[3] == 0 && s[4] == 0 && s[5] == 65535 {
        seq![':', ':', 'f', 'f', 'f', 'f', ':'] + v4_text(ip % 4294967296)
    } else {
        let (ls, ll, _, _) = zero_run(s);
        if ll > 1 {
            join_hex(s.subrange(0, ls)) + seq![':', ':'] + join_hex(s.subrange(ls + ll, 8))
        } else {
            join_hex(s)
        }
    }
}

/// The text form of a socket address.
pub open spec fn addr_text(a: PeerAddr) -> Seq<char> {
    match a {
        PeerAddr::V4 { ip, port } => v4_text(ip as nat) + seq![':'] + decimal_digits(port as nat),
        PeerAddr::V6 { ip, port, scope_id, .. } => seq!['['] + v6_text(ip as nat) + (if scope_id != 0 {
            seq!['%'] + decimal_digits(scope_id as nat)
        } else {
            Seq::empty()
        }) + seq![']', ':'] + decimal_digits(port as nat),
    }
}

fn hex_string(n: u64) -> (r: String)
    ensures
        r@ == hex_digits(n as nat),
    decreases n,
{
    let digits = "0123456789abcdef";
    proof {
        reveal_strlit("0123456789abcdef");
    }
    let d = (n % 16) as usize;
    let last = digits.substring_ascii(d, d + 1);
    assert(last@ =~= seq![hex_char(d as nat)]);
    if n < 16 {
        last.to_owned()
    } else {
        let mut s = hex_string(n / 16);
        s.append(last);
        s
    }
}

fn push_str(s: &mut String, piece: &str)
    ensures
        final(s)@ == old(s)@ + piece@,
{
    s.append(piece);
}

fn push_decimal(s: &mut String, n: u64)
    ensures
        final(s)@ == old(s)@ + decimal_digits(n as nat),
{
    let d = decimal_string(n);
    s.append(d.as_str());
}

fn v4_string(ip: u32, s: &mut String)
    ensures
        final(s)@ == old(s)@ + v4_text(ip as nat),
{
    let ghost start = s@;
    proof {
        reveal_strlit(".");
    }
    push_decimal(s, ((ip / 16777216) % 256) as u64);
    push_str(s, ".");
    push_decimal(s, ((ip / 65536) % 256) as u64);
    push_str(s, ".");
    push_decimal(s, ((ip / 256) % 256) as u64);
    push_str(s, ".");
    push_decimal(s, (ip % 256) as u64);
    assert(s@ =~= start + v4_text(ip as nat));
}

fn segments_vec(ip: u128, count: usize) -> (r: Vec<u64>)
    requires
        count <= 8,
    ensures
        r@.len() == count,
        forall|i: int| 0 <= i < count ==> r@[i] as nat == #[trigger] segments(ip as nat, count as nat)[i],
    decreases count,
{
    if count == 0 {
        Vec::new()
    } else {
        let mut v = segments_vec(ip / 65536, count - 1);
        let ghost prev = v@;
        v.push((ip % 65536) as u64);
        proof {
            let prev_spec = segments((ip / 65536) as nat, (count - 1) as nat);
            lemma_segments_len((ip / 65536) as nat, (count - 1) as nat);
            assert((ip / 65536) as nat == (ip as nat) / 65536);
            assert(segments(ip as nat, count as nat) == prev_spec.push((ip as nat) % 65536));
            assert forall|i: int| 0 <= i < count implies v@[i] as nat == #[trigger] segments(ip as nat, count as nat)[i] by {
                if i < count - 1 {
                    assert(v@[i] == prev[i]);
                }
            }
        }
        v
    }
}

fn join_hex_string(s: &Vec<u64>, from: usize, to: usize, out: &mut String)
    requires
        from <= to <= s@.len(),
    ensures
        final(out)@ == old(out)@ + join_hex(s@.subrange(from as int, to as int).map_values(|x: u64| x as nat)),
    decreases to - from,
{
    let ghost seg = s@.subrange(from as int, to as int).map_values(|x: u64| x as nat);
    if from == to {
        assert(seg.len() == 0);
        assert(out@ =~= old(out)@ + join_hex(seg));
    } else if to - from == 1 {
        let h = hex_string(s[from]);
        out.append(h.as_str());
        assert(seg[0] == s@[from as int] as nat);
    } else {
        join_hex_string(s, from, to - 1, out);
        let ghost mid = out@;
        proof {
            reveal_strlit(":");
        }
        out.append(":");
        let h = hex_string(s[to - 1]);
        out.append(h.as_str());
        assert(seg.drop_last() =~= s@.subrange(from as int, to - 1).map_values(|x: u64| x as nat));
        assert(out@ =~= old(out)@ + join_hex(seg));
    }
}

fn longest_zero_run(v: &Vec<u64>) -> (r: (usize, usize))
    requires
        v@.len() <= 8,
    ensures
        r.0 as int == zero_run(v@.map_values(|x: u64| x as nat)).0,
        r.1 as int == zero_run(v@.map_values(|x: u64| x as nat)).1,
        r.0 + r.1 <= v@.len(),
{
    let ghost all = v@.map_values(|x: u64| x as nat);
    let mut ls: usize = 0;
    let mut ll: usize = 0;
    let mut cs: usize = 0;
    let mut cl: usize = 0;
    let mut i: usize = 0;
    while i < v.len()
        invariant
            i <= v@.len() <= 8,
            all == v@.map_values(|x: u64| x as nat),
            (ls as int, ll as int, cs as int, cl as int) == zero_run(all.take(i as int)),
            ls + ll <= i,
            cs + cl == i || (cs == 0 && cl == 0),
            cl <= i,
        decreases v@.len() - i,
    {
        assert(all.take(i + 1).drop_last() =~= all.take(i as int));
        assert(all.take(i + 1).last() == v@[i as int] as nat);
        if v[i] == 0 {
            if cl == 0 {
                cs = i;
            }
            cl = cl + 1;
            if cl > ll {
                ls = cs;
                ll = cl;
            }
        } else {
            cs = 0;
            cl = 0;
        }
        i = i + 1;
    }
    assert(all.take(v@.len() as int) =~= all);
    (ls, ll)
}

fn v6_string(ip: u128, out: &mut String)
    ensures
        final(out)@ == old(out)@ + v6_text(ip as nat),
{
    let segs = segments_vec(ip, 8);
    let ghost all = segs@.map_values(|x: u64| x as nat);
    proof {
        lemma_segments_len(ip as nat, 8);
        assert(all =~= segments(ip as nat, 8));
    }
    if segs[0] == 0 && segs[1] == 0 && segs[2] == 0 && segs[3] == 0 && segs[4] == 0 && segs[5] == 65535 {
        proof {
            reveal_strlit("::ffff:");
        }
        out.append("::ffff:");
        assert((ip % 4294967296) as u32 as nat == (ip as nat) % 4294967296);
        v4_string((ip % 4294967296) as u32, out);
        assert(out@ =~= old(out)@ + v6_text(ip as nat));
    } else {
        let (ls, ll) = longest_zero_run(&segs);
        if ll > 1 {
            join_hex_string(&segs, 0, ls, out);
            proof {
                reveal_strlit("::");
            }
            out.append("::");
            join_hex_string(&segs, ls + ll, 8, out);
            assert(segs@.subrange(0, ls as int).map_values(|x: u64| x as nat) =~= all.subrange(0, ls as int));
            assert(segs@.subrange(ls + ll, 8).map_values(|x: u64| x as nat) =~= all.subrange(ls + ll, 8));
            assert(out@ =~= old(out)@ + v6_text(ip as nat));
        } else {
            join_hex_string(&segs, 0, 8, out);
            assert(segs@.subrange(0, 8) =~= segs@);
            assert(out@ =~= old(out)@ + v6_text(ip as nat));
        }
    }
}

impl PeerAddr {
    /// The text form of this address, as std writes a `SocketAddr`.
    pub fn to_text(&self) -> (r: String)
        ensures
            r@ == addr_text(*self),
    {
        let mut out = String::new();
        match *self {
            PeerAddr::V4 { ip, port } => {
                v4_string(ip, &mut out);
                proof {
                    reveal_strlit(":");
                }
                out.append(":");
                push_decimal(&mut out, port as u64);
            },
            PeerAddr::V6 { ip, port, scope_id, .. } => {
                proof {
                    reveal_strlit("[");
                    reveal_strlit("%");
                    reveal_strlit("]:");
                }
                out.append("[");
                v6_string(ip, &mut out);
                if scope_id != 0 {
                    out.append("%");
                    push_decimal(&mut out, scope_id as u64);
                }
                out.append("]:");
                push_decimal(&mut out, port as u64);
            },
        }
        assert(out@ =~= addr_text(*self));
        out
    }
}

} // verus!

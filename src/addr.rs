//! Network addresses, as the engine compares and prints them.
use vstd::prelude::*;

use crate::text::{dec_text, hex_text, push_char, push_dec, push_hex};

verus! {

/// An IPv4 address (four octets) or an IPv6 address (eight 16-bit groups).
#[derive(Clone, Copy, Debug, PartialEq, Eq, Structural, Hash, PartialOrd, Ord)]
pub enum IpAddress {
    V4(u8, u8, u8, u8),
    V6(u16, u16, u16, u16, u16, u16, u16, u16),
}

/// The eight groups of an IPv6 address.
pub open spec fn groups_of(a: u16, b: u16, c: u16, d: u16, e: u16, f: u16, g: u16, h: u16) -> Seq<u16> {
    seq![a, b, c, d, e, f, g, h]
}

/// Dotted decimal text of four octets.
pub open spec fn v4_text(a: nat, b: nat, c: nat, d: nat) -> Seq<char> {
    dec_text(a) + seq!['.'] + dec_text(b) + seq!['.'] + dec_text(c) + seq!['.'] + dec_text(d)
}

/// Groups in hexadecimal, separated by colons.
pub open spec fn join_hex(g: Seq<u16>) -> Seq<char>
    decreases g.len(),
{
    if g.len() == 0 {
        Seq::empty()
    } else if g.len() == 1 {
        hex_text(g[0] as nat)
    } else {
        join_hex(g.drop_last()) + seq![':'] + hex_text(g.last() as nat)
    }
}

/// How many zero groups follow one another from index `i` on.
pub open spec fn zeros_from(g: Seq<u16>, i: int) -> nat
    decreases g.len() - i,
{
    if 0 <= i < g.len() && g[i] == 0 {
        1 + zeros_from(g, i + 1)
    } else {
        0
    }
}

/// Among the runs of zero groups that start before `n`, the longest one, and
/// of several equally long the first: its start and its length.
pub open spec fn longest_zeros(g: Seq<u16>, n: int) -> (int, nat)
    decreases n,
{
    if n <= 0 {
        (0, 0)
    } else {
        let best = longest_zeros(g, n - 1);
        if zeros_from(g, n - 1) > best.1 {
            (n - 1, zeros_from(g, n - 1))
        } else {
            best
        }
    }
}

/// Whether the groups are those of an IPv4 address mapped into IPv6 (`::ffff:a.b.c.d`).
pub open spec fn is_v4_mapped(g: Seq<u16>) -> bool {
    g[0] == 0 && g[1] == 0 && g[2] == 0 && g[3] == 0 && g[4] == 0 && g[5] == 0xffff
}

/// Canonical text of eight IPv6 groups: an IPv4-mapped address ends in dotted
/// decimal; otherwise the longest run of two or more zero groups (the first of
/// equal ones) is written `::`, and every other group in lower-case hexadecimal.
pub open spec fn v6_text(g: Seq<u16>) -> Seq<char> {
    if is_v4_mapped(g) {
        seq![':', ':', 'f', 'f', 'f', 'f', ':'] + v4_text(
            (g[6] / 256) as nat,
            (g[6] % 256) as nat,
            (g[7] / 256) as nat,
            (g[7] % 256) as nat,
        )
    } else {
        let run = longest_zeros(g, 8);
        if run.1 > 1 {
            join_hex(g.subrange(0, run.0)) + seq![':', ':'] + join_hex(g.subrange(run.0 + run.1, 8))
        } else {
            join_hex(g)
        }
    }
}

impl IpAddress {
    /// The text in which the address is written.
    pub open spec fn text(&self) -> Seq<char> {
        match *self {
            IpAddress::V4(a, b, c, d) => v4_text(a as nat, b as nat, c as nat, d as nat),
            IpAddress::V6(a, b, c, d, e, f, g, h) => v6_text(groups_of(a, b, c, d, e, f, g, h)),
        }
    }

    pub open spec fn spec_is_ipv4(&self) -> bool {
        *self is V4
    }

    /// Prefix length of a route to this address alone.
    pub open spec fn host_len(&self) -> nat {
        if *self is V4 {
            32
        } else {
            128
        }
    }

    #[verifier::when_used_as_spec(spec_is_ipv4)]
    pub fn is_ipv4(&self) -> (r: bool)
        ensures
            r == self.spec_is_ipv4(),
    {
        matches!(self, IpAddress::V4(..))
    }

    /// The length of a host route: 32 for IPv4, 128 for IPv6.
    pub fn host_prefix_len(&self) -> (r: u8)
        ensures
            r as nat == self.host_len(),
    {
        if self.is_ipv4() {
            32
        } else {
            128
        }
    }

    /// Appends the text of the address.
    pub fn write_to(&self, s: &mut String)
        ensures
            final(s)@ == old(s)@ + self.text(),
    {
        match *self {
            IpAddress::V4(a, b, c, d) => push_v4(s, a, b, c, d),
            IpAddress::V6(a, b, c, d, e, f, g, h) => {
                let groups: Vec<u16> = vec![a, b, c, d, e, f, g, h];
                assert(groups@ == groups_of(a, b, c, d, e, f, g, h));
                push_v6(s, &groups);
            },
        }
    }

    /// The text of the address.
    pub fn to_text(&self) -> (r: String)
        ensures
            r@ == self.text(),
    {
        let mut s = String::new();
        self.write_to(&mut s);
        assert(s@ =~= self.text());
        s
    }
}

fn push_v4(s: &mut String, a: u8, b: u8, c: u8, d: u8)
    ensures
        final(s)@ == old(s)@ + v4_text(a as nat, b as nat, c as nat, d as nat),
{
    push_dec(s, a as u64);
    push_char(s, '.');
    push_dec(s, b as u64);
    push_char(s, '.');
    push_dec(s, c as u64);
    push_char(s, '.');
    push_dec(s, d as u64);
    assert(final(s)@ =~= old(s)@ + v4_text(a as nat, b as nat, c as nat, d as nat));
}

/// Appends the groups `g[lo..hi]` in hexadecimal, separated by colons.
fn push_groups(s: &mut String, g: &Vec<u16>, lo: usize, hi: usize)
    requires
        lo <= hi <= g@.len(),
    ensures
        final(s)@ == old(s)@ + join_hex(g@.subrange(lo as int, hi as int)),
{
    let mut i: usize = lo;
    while i < hi
        invariant
            lo <= i <= hi <= g@.len(),
            s@ == old(s)@ + join_hex(g@.subrange(lo as int, i as int)),
        decreases hi - i,
    {
        if i > lo {
            push_char(s, ':');
        }
        push_hex(s, g[i] as u64);
        proof {
            let sub = g@.subrange(lo as int, i + 1);
            assert(sub.drop_last() =~= g@.subrange(lo as int, i as int));
            assert(sub.last() == g@[i as int]);
            if i == lo {
                assert(join_hex(g@.subrange(lo as int, i as int)) =~= Seq::<char>::empty());
            }
            assert(s@ =~= old(s)@ + join_hex(sub));
        }
        i = i + 1;
    }
}

/// Counts the zero groups that follow one another from index `i` on.
fn count_zeros(g: &Vec<u16>, i: usize) -> (r: usize)
    requires
        i <= g@.len(),
    ensures
        r == zeros_from(g@, i as int),
        i + r <= g@.len(),
{
    let len: usize = g.len();
    let mut j: usize = len;
    let mut n: usize = 0;
    while j > i
        invariant
            len == g@.len(),
            i <= j <= g@.len(),
            n == zeros_from(g@, j as int),
            j + n <= g@.len(),
        decreases j - i,
    {
        j = j - 1;
        if g[j] == 0 {
            n = n + 1;
        } else {
            n = 0;
        }
    }
    n
}

fn push_v6(s: &mut String, g: &Vec<u16>)
    requires
        g@.len() == 8,
    ensures
        final(s)@ == old(s)@ + v6_text(g@),
{
    if g[0] == 0 && g[1] == 0 && g[2] == 0 && g[3] == 0 && g[4] == 0 && g[5] == 0xffff {
        push_char(s, ':');
        push_char(s, ':');
        push_char(s, 'f');
        push_char(s, 'f');
        push_char(s, 'f');
        push_char(s, 'f');
        push_char(s, ':');
        push_v4(s, (g[6] / 256) as u8, (g[6] % 256) as u8, (g[7] / 256) as u8, (g[7] % 256) as u8);
        assert(final(s)@ =~= old(s)@ + v6_text(g@));
        return;
    }
    let mut best_start: usize = 0;
    let mut best_len: usize = 0;
    let mut i: usize = 0;
    while i < 8
        invariant
            0 <= i <= 8,
            g@.len() == 8,
            longest_zeros(g@, i as int) == (best_start as int, best_len as nat),
            best_start + best_len <= 8,
        decreases 8 - i,
    {
        let n = count_zeros(g, i);
        if n > best_len {
            best_start = i;
            best_len = n;
        }
        i = i + 1;
    }
    if best_len > 1 {
        push_groups(s, g, 0, best_start);
        push_char(s, ':');
        push_char(s, ':');
        push_groups(s, g, best_start + best_len, 8);
        assert(final(s)@ =~= old(s)@ + v6_text(g@));
    } else {
        push_groups(s, g, 0, 8);
        assert(g@.subrange(0, 8) =~= g@);
    }
}

} // verus!

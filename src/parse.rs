//! Reading addresses and prefix lengths from text.
//!
//! An IPv4 address is four decimal octets separated by dots, each of one to
//! three digits and without a leading zero. An IPv6 address is eight groups of
//! one to four hexadecimal digits (either case) separated by colons; one `::`
//! may stand for one or more zero groups, and the last two groups may be
//! written as an IPv4 address.
use vstd::prelude::*;

use crate::addr::{v4_text, IpAddress};
use crate::text::{dec_text, digit_char, push_char, views};

verus! {

pub open spec fn is_dec(c: char) -> bool {
    48 <= c as u32 && c as u32 <= 57
}

pub open spec fn is_hex(c: char) -> bool {
    is_dec(c) || (97 <= c as u32 && c as u32 <= 102) || (65 <= c as u32 && c as u32 <= 70)
}

/// The value of a hexadecimal (or decimal) digit.
pub open spec fn digit_value(c: char) -> nat {
    if is_dec(c) {
        (c as u32 - 48) as nat
    } else if 97 <= c as u32 && c as u32 <= 102 {
        (c as u32 - 87) as nat
    } else {
        (c as u32 - 55) as nat
    }
}

/// The number that the digits of `s` write in `base`.
pub open spec fn number(s: Seq<char>, base: nat) -> nat
    decreases s.len(),
{
    if s.len() == 0 {
        0
    } else {
        number(s.drop_last(), base) * base + digit_value(s.last())
    }
}

pub open spec fn all_dec(s: Seq<char>) -> bool {
    forall|i: int| 0 <= i < s.len() ==> is_dec(#[trigger] s[i])
}

pub open spec fn all_hex(s: Seq<char>) -> bool {
    forall|i: int| 0 <= i < s.len() ==> is_hex(#[trigger] s[i])
}

/// The pieces of `s` between the occurrences of `sep`.
pub open spec fn split(s: Seq<char>, sep: char) -> Seq<Seq<char>>
    decreases s.len(),
{
    if s.len() == 0 {
        seq![Seq::empty()]
    } else {
        let p = split(s.drop_last(), sep);
        if s.last() == sep {
            p.push(Seq::empty())
        } else {
            p.update(p.len() - 1, p.last().push(s.last()))
        }
    }
}

/// An IPv4 octet: one to three decimal digits, no leading zero, at most 255.
pub open spec fn octet_of(p: Seq<char>) -> Option<u8> {
    if 1 <= p.len() <= 3 && all_dec(p) && !(p.len() > 1 && p[0] == '0') && number(p, 10) <= 255 {
        Some(number(p, 10) as u8)
    } else {
        None
    }
}

/// An IPv6 group: one to four hexadecimal digits.
pub open spec fn group_of(p: Seq<char>) -> Option<u16> {
    if 1 <= p.len() <= 4 && all_hex(p) {
        Some(number(p, 16) as u16)
    } else {
        None
    }
}

/// The four octets of an IPv4 address.
pub open spec fn v4_of(s: Seq<char>) -> Option<(u8, u8, u8, u8)> {
    let p = split(s, '.');
    if p.len() == 4 && octet_of(p[0]) is Some && octet_of(p[1]) is Some && octet_of(p[2]) is Some
        && octet_of(p[3]) is Some {
        Some((octet_of(p[0])->Some_0, octet_of(p[1])->Some_0, octet_of(p[2])->Some_0, octet_of(p[3])->Some_0))
    } else {
        None
    }
}

/// The groups written by pieces that are each one group.
pub open spec fn hex_groups(p: Seq<Seq<char>>) -> Option<Seq<u16>> {
    if forall|i: int| 0 <= i < p.len() ==> (#[trigger] group_of(p[i])) is Some {
        Some(p.map_values(|x: Seq<char>| group_of(x)->Some_0))
    } else {
        None
    }
}

/// The groups written by pieces that are each one group, but for the last,
/// which may be an IPv4 address standing for two groups.
pub open spec fn tail_groups(p: Seq<Seq<char>>) -> Option<Seq<u16>> {
    if p.len() > 0 && p.last().contains('.') {
        match (hex_groups(p.drop_last()), v4_of(p.last())) {
            (Some(g), Some(o)) => Some(
                g + seq![(o.0 as nat * 256 + o.1 as nat) as u16, (o.2 as nat * 256 + o.3 as nat) as u16],
            ),
            _ => None,
        }
    } else {
        hex_groups(p)
    }
}

/// `k` is the first empty piece.
pub open spec fn is_first_empty(p: Seq<Seq<char>>, k: int) -> bool {
    &&& 0 <= k < p.len()
    &&& p[k].len() == 0
    &&& forall|j: int| 0 <= j < k ==> p[j].len() > 0
}

/// The groups of an address whose pieces hold an empty one first at `k`: the
/// place of the `::`, which stands for the zero groups that the groups
/// written before and after it leave to make eight.
pub open spec fn gap_groups(p: Seq<Seq<char>>, k: int) -> Option<Seq<u16>> {
    let shape_ok = if k == 0 {
        p.len() >= 3 && p[1].len() == 0
    } else {
        k + 1 < p.len()
    };
    let after = if k == 0 {
        p.subrange(2, p.len() as int)
    } else {
        p.subrange(k + 1, p.len() as int)
    };
    let tail = if after == seq![Seq::<char>::empty()] {
        Seq::empty()
    } else {
        after
    };
    if !shape_ok {
        None
    } else {
        match (hex_groups(p.subrange(0, k)), tail_groups(tail)) {
            (Some(h), Some(t)) => if h.len() + t.len() <= 7 {
                Some(h + Seq::new((8 - h.len() - t.len()) as nat, |i: int| 0u16) + t)
            } else {
                None
            },
            _ => None,
        }
    }
}

/// The eight groups of an IPv6 address.
pub open spec fn v6_of(s: Seq<char>) -> Option<Seq<u16>> {
    let p = split(s, ':');
    if exists|k: int| is_first_empty(p, k) {
        gap_groups(p, choose|k: int| is_first_empty(p, k))
    } else {
        match tail_groups(p) {
            Some(g) => if g.len() == 8 {
                Some(g)
            } else {
                None
            },
            None => None,
        }
    }
}

/// The address written by `s`: IPv6 where it holds a colon, IPv4 otherwise.
pub open spec fn ip_of(s: Seq<char>) -> Option<IpAddress> {
    if s.contains(':') {
        match v6_of(s) {
            Some(g) => Some(IpAddress::V6(g[0], g[1], g[2], g[3], g[4], g[5], g[6], g[7])),
            None => None,
        }
    } else {
        match v4_of(s) {
            Some(o) => Some(IpAddress::V4(o.0, o.1, o.2, o.3)),
            None => None,
        }
    }
}

/// The digits of an unsigned number, after an optional `+`.
pub open spec fn unsigned_digits(s: Seq<char>) -> Seq<char> {
    if s.len() > 0 && s[0] == '+' {
        s.drop_first()
    } else {
        s
    }
}

/// A prefix length: an optional `+` and decimal digits, at most 255.
pub open spec fn prefix_len_of(s: Seq<char>) -> Option<u8> {
    let d = unsigned_digits(s);
    if d.len() >= 1 && all_dec(d) && number(d, 10) <= 255 {
        Some(number(d, 10) as u8)
    } else {
        None
    }
}

pub open spec fn opt_view(v: Option<Vec<u16>>) -> Option<Seq<u16>> {
    match v {
        Some(v) => Some(v@),
        None => None,
    }
}

proof fn lemma_number_step(s: Seq<char>, i: int, base: nat)
    requires
        0 <= i < s.len(),
    ensures
        number(s.subrange(0, i + 1), base) == number(s.subrange(0, i), base) * base + digit_value(s[i]),
{
    assert(s.subrange(0, i + 1).drop_last() =~= s.subrange(0, i));
}

/// The pieces of `s` between the occurrences of `sep`.
pub fn split_on(s: &str, sep: char) -> (r: Vec<String>)
    ensures
        views(r@) == split(s@, sep),
{
    let n = s.unicode_len();
    let mut pieces: Vec<String> = Vec::new();
    let mut cur = String::new();
    let mut i: usize = 0;
    assert(s@.subrange(0, 0) =~= Seq::<char>::empty());
    while i < n
        invariant
            n == s@.len(),
            i <= n,
            views(pieces@).push(cur@) == split(s@.subrange(0, i as int), sep),
        decreases n - i,
    {
        let c = s.get_char(i);
        let ghost before = views(pieces@).push(cur@);
        proof {
            assert(s@.subrange(0, i + 1).drop_last() =~= s@.subrange(0, i as int));
        }
        if c == sep {
            pieces.push(cur);
            cur = String::new();
            assert(views(pieces@).push(cur@) =~= before.push(Seq::empty()));
        } else {
            let ghost old_cur = cur@;
            push_char(&mut cur, c);
            assert(views(pieces@).push(cur@) =~= before.update(before.len() - 1, old_cur.push(c)));
        }
        i = i + 1;
    }
    assert(s@.subrange(0, n as int) =~= s@);
    let ghost all = views(pieces@).push(cur@);
    pieces.push(cur);
    assert(views(pieces@) =~= all);
    pieces
}

fn is_dec_char(c: char) -> (r: bool)
    ensures
        r == is_dec(c),
{
    let u = c as u32;
    48 <= u && u <= 57
}

fn hex_char_value(c: char) -> (r: Option<u32>)
    ensures
        r == (if is_hex(c) {
            Some(digit_value(c) as u32)
        } else {
            None::<u32>
        }),
{
    let u = c as u32;
    if 48 <= u && u <= 57 {
        Some(u - 48)
    } else if 97 <= u && u <= 102 {
        Some(u - 87)
    } else if 65 <= u && u <= 70 {
        Some(u - 55)
    } else {
        None
    }
}

/// Reads an IPv4 octet.
pub fn parse_octet(p: &str) -> (r: Option<u8>)
    ensures
        r == octet_of(p@),
{
    let n = p.unicode_len();
    if n == 0 || n > 3 {
        return None;
    }
    let mut v: u32 = 0;
    let mut i: usize = 0;
    while i < n
        invariant
            n == p@.len(),
            1 <= n <= 3,
            i <= n,
            v == number(p@.subrange(0, i as int), 10),
            i == 0 ==> v == 0,
            i == 1 ==> v < 10,
            i == 2 ==> v < 100,
            i == 3 ==> v < 1000,
            forall|j: int| 0 <= j < i ==> is_dec(#[trigger] p@[j]),
        decreases n - i,
    {
        let c = p.get_char(i);
        if !is_dec_char(c) {
            return None;
        }
        proof {
            lemma_number_step(p@, i as int, 10);
        }
        v = v * 10 + (c as u32 - 48);
        i = i + 1;
    }
    assert(p@.subrange(0, n as int) =~= p@);
    if n > 1 && p.get_char(0) == '0' {
        return None;
    }
    if v > 255 {
        return None;
    }
    Some(v as u8)
}

/// Reads an IPv6 group.
pub fn parse_group(p: &str) -> (r: Option<u16>)
    ensures
        r == group_of(p@),
{
    let n = p.unicode_len();
    if n == 0 || n > 4 {
        return None;
    }
    let mut v: u32 = 0;
    let mut i: usize = 0;
    while i < n
        invariant
            n == p@.len(),
            1 <= n <= 4,
            i <= n,
            v == number(p@.subrange(0, i as int), 16),
            i == 0 ==> v == 0,
            i == 1 ==> v < 16,
            i == 2 ==> v < 256,
            i == 3 ==> v < 4096,
            i == 4 ==> v < 65536,
            forall|j: int| 0 <= j < i ==> is_hex(#[trigger] p@[j]),
        decreases n - i,
    {
        let c = p.get_char(i);
        match hex_char_value(c) {
            None => {
                return None;
            },
            Some(d) => {
                proof {
                    lemma_number_step(p@, i as int, 16);
                }
                v = v * 16 + d;
            },
        }
        i = i + 1;
    }
    assert(p@.subrange(0, n as int) =~= p@);
    Some(v as u16)
}

/// Reads a prefix length.
pub fn parse_prefix_len(s: &str) -> (r: Option<u8>)
    ensures
        r == prefix_len_of(s@),
{
    let n = s.unicode_len();
    let start: usize = if n > 0 && s.get_char(0) == '+' {
        1
    } else {
        0
    };
    let ghost d = unsigned_digits(s@);
    assert(d =~= s@.subrange(start as int, n as int));
    if start == n {
        return None;
    }
    let mut v: u32 = 0;
    let mut i: usize = start;
    while i < n
        invariant
            n == s@.len(),
            start <= i <= n,
            d == unsigned_digits(s@),
            d == s@.subrange(start as int, n as int),
            v <= 256,
            v == (if number(d.subrange(0, i - start), 10) <= 256 {
                number(d.subrange(0, i - start), 10)
            } else {
                256
            }),
            forall|j: int| 0 <= j < i - start ==> is_dec(#[trigger] d[j]),
        decreases n - i,
    {
        let c = s.get_char(i);
        if !is_dec_char(c) {
            assert(d[i - start] == s@[i as int]);
            assert(!is_dec(d[i - start]));
            return None;
        }
        proof {
            lemma_number_step(d, i - start, 10);
        }
        let w = v * 10 + (c as u32 - 48);
        v = if w > 256 {
            256
        } else {
            w
        };
        i = i + 1;
    }
    assert(d.subrange(0, n - start) =~= d);
    if v > 255 {
        return None;
    }
    Some(v as u8)
}

/// Reads the four octets of an IPv4 address.
pub fn parse_v4(s: &str) -> (r: Option<(u8, u8, u8, u8)>)
    ensures
        r == v4_of(s@),
{
    let p = split_on(s, '.');
    if p.len() != 4 {
        return None;
    }
    let a = parse_octet(p[0].as_str());
    let b = parse_octet(p[1].as_str());
    let c = parse_octet(p[2].as_str());
    let d = parse_octet(p[3].as_str());
    assert(views(p@)[0] == p@[0]@ && views(p@)[1] == p@[1]@);
    assert(views(p@)[2] == p@[2]@ && views(p@)[3] == p@[3]@);
    match (a, b, c, d) {
        (Some(a), Some(b), Some(c), Some(d)) => Some((a, b, c, d)),
        _ => None,
    }
}

/// Reads the pieces `p[lo..hi]`, each one group.
fn parse_hex_groups(p: &Vec<String>, lo: usize, hi: usize) -> (r: Option<Vec<u16>>)
    requires
        lo <= hi <= p@.len(),
    ensures
        opt_view(r) == hex_groups(views(p@).subrange(lo as int, hi as int)),
{
    let ghost q = views(p@).subrange(lo as int, hi as int);
    let mut g: Vec<u16> = Vec::new();
    let mut i: usize = lo;
    while i < hi
        invariant
            lo <= i <= hi <= p@.len(),
            q == views(p@).subrange(lo as int, hi as int),
            g@.len() == i - lo,
            forall|j: int| 0 <= j < i - lo ==> (#[trigger] group_of(q[j])) is Some && g@[j] == group_of(q[j])->Some_0,
        decreases hi - i,
    {
        assert(q[i - lo] == p@[i as int]@);
        match parse_group(p[i].as_str()) {
            None => {
                assert(group_of(q[i - lo]) is None);
                return None;
            },
            Some(x) => {
                g.push(x);
            },
        }
        i = i + 1;
    }
    assert(g@ =~= q.map_values(|x: Seq<char>| group_of(x)->Some_0));
    Some(g)
}

/// Reads the pieces `p[lo..hi]`, each one group but for the last, which may
/// be an IPv4 address.
fn parse_tail_groups(p: &Vec<String>, lo: usize, hi: usize) -> (r: Option<Vec<u16>>)
    requires
        lo <= hi <= p@.len(),
    ensures
        opt_view(r) == tail_groups(views(p@).subrange(lo as int, hi as int)),
{
    let ghost q = views(p@).subrange(lo as int, hi as int);
    if lo < hi && has_char(p[hi - 1].as_str(), '.') {
        assert(q.last() == p@[hi - 1]@);
        assert(q.drop_last() =~= views(p@).subrange(lo as int, hi - 1));
        let head = parse_hex_groups(p, lo, hi - 1);
        let last = parse_v4(p[hi - 1].as_str());
        match (head, last) {
            (Some(mut g), Some((a, b, c, d))) => {
                let ghost g0 = g@;
                g.push((a as u16) * 256 + (b as u16));
                g.push((c as u16) * 256 + (d as u16));
                assert(g@ =~= g0 + seq![(a as nat * 256 + b as nat) as u16, (c as nat * 256 + d as nat) as u16]);
                Some(g)
            },
            _ => None,
        }
    } else {
        proof {
            if lo < hi {
                assert(q.last() == p@[hi - 1]@);
            }
        }
        parse_hex_groups(p, lo, hi)
    }
}

/// Whether `s` holds the character `c`.
pub fn has_char(s: &str, c: char) -> (r: bool)
    ensures
        r == s@.contains(c),
{
    let n = s.unicode_len();
    let mut i: usize = 0;
    while i < n
        invariant
            n == s@.len(),
            i <= n,
            forall|j: int| 0 <= j < i ==> s@[j] != c,
        decreases n - i,
    {
        if s.get_char(i) == c {
            return true;
        }
        i = i + 1;
    }
    false
}

/// Reads the eight groups of an IPv6 address.
pub fn parse_v6(s: &str) -> (r: Option<Vec<u16>>)
    ensures
        opt_view(r) == v6_of(s@),
{
    let p = split_on(s, ':');
    let ghost pv = views(p@);
    let len = p.len();
    let mut k: usize = 0;
    while k < len && !p[k].as_str().is_empty()
        invariant
            len == p@.len(),
            pv == views(p@),
            k <= len,
            forall|j: int| 0 <= j < k ==> pv[j].len() > 0,
        decreases len - k,
    {
        k = k + 1;
    }
    if k == len {
        assert(!exists|k: int| is_first_empty(pv, k));
        assert(pv.subrange(0, len as int) =~= pv);
        match parse_tail_groups(&p, 0, len) {
            Some(g) => {
                if g.len() == 8 {
                    Some(g)
                } else {
                    None
                }
            },
            None => None,
        }
    } else {
        assert(is_first_empty(pv, k as int));
        assert((choose|j: int| is_first_empty(pv, j)) == k as int);
        let shape_ok = if k == 0 {
            len >= 3 && p[1].as_str().is_empty()
        } else {
            k + 1 < len
        };
        if !shape_ok {
            return None;
        }
        let after: usize = if k == 0 {
            2
        } else {
            k + 1
        };
        let blank = after + 1 == len && p[after].as_str().is_empty();
        let ghost after_seq = pv.subrange(after as int, len as int);
        proof {
            if blank {
                assert(pv[after as int] == p@[after as int]@);
                assert(pv[after as int] =~= Seq::<char>::empty());
                assert(after_seq =~= seq![Seq::<char>::empty()]);
            } else if after_seq == seq![Seq::<char>::empty()] {
                assert(after_seq.len() == 1);
                assert(after_seq[0] == pv[after as int]);
            }
        }
        let lo: usize = if blank {
            len
        } else {
            after
        };
        proof {
            if blank {
                assert(pv.subrange(len as int, len as int) =~= Seq::<Seq<char>>::empty());
            }
        }
        let head = parse_hex_groups(&p, 0, k);
        let tail = parse_tail_groups(&p, lo, len);
        match (head, tail) {
            (Some(h), Some(t)) => {
                if h.len() + t.len() > 7 {
                    return None;
                }
                let mut g = h;
                let zeros = 8 - g.len() - t.len();
                let ghost hv = g@;
                let mut z: usize = 0;
                while z < zeros
                    invariant
                        z <= zeros,
                        g@ == hv + Seq::new(z as nat, |i: int| 0u16),
                    decreases zeros - z,
                {
                    g.push(0);
                    assert(g@ =~= hv + Seq::new((z + 1) as nat, |i: int| 0u16));
                    z = z + 1;
                }
                let mut j: usize = 0;
                let ghost mid = g@;
                while j < t.len()
                    invariant
                        j <= t@.len(),
                        g@ == mid + t@.subrange(0, j as int),
                    decreases t@.len() - j,
                {
                    g.push(t[j]);
                    assert(g@ =~= mid + t@.subrange(0, j + 1));
                    j = j + 1;
                }
                assert(t@.subrange(0, j as int) =~= t@);
                Some(g)
            },
            _ => None,
        }
    }
}

/// Reads an address: IPv6 where the text holds a colon, IPv4 otherwise.
pub fn parse_ip(s: &str) -> (r: Option<IpAddress>)
    ensures
        r == ip_of(s@),
{
    if has_char(s, ':') {
        match parse_v6(s) {
            Some(g) => Some(IpAddress::V6(g[0], g[1], g[2], g[3], g[4], g[5], g[6], g[7])),
            None => None,
        }
    } else {
        match parse_v4(s) {
            Some((a, b, c, d)) => Some(IpAddress::V4(a, b, c, d)),
            None => None,
        }
    }
}

proof fn lemma_split_nonempty(s: Seq<char>, sep: char)
    ensures
        split(s, sep).len() >= 1,
    decreases s.len(),
{
    if s.len() > 0 {
        lemma_split_nonempty(s.drop_last(), sep);
    }
}

proof fn lemma_split_without_sep(t: Seq<char>, sep: char)
    requires
        !t.contains(sep),
    ensures
        split(t, sep) == seq![t],
    decreases t.len(),
{
    if t.len() > 0 {
        let u = t.drop_last();
        assert(!u.contains(sep)) by {
            if u.contains(sep) {
                let k = choose|k: int| 0 <= k < u.len() && u[k] == sep;
                assert(t[k] == sep);
            }
        };
        lemma_split_without_sep(u, sep);
        assert(t[t.len() - 1] != sep);
        assert(u.push(t.last()) =~= t);
        assert(seq![u].update(0, u.push(t.last())) =~= seq![t]);
    } else {
        assert(t =~= Seq::<char>::empty());
    }
}

proof fn lemma_split_concat(x: Seq<char>, y: Seq<char>, sep: char)
    ensures
        split(x.push(sep) + y, sep) == split(x, sep) + split(y, sep),
    decreases y.len(),
{
    if y.len() == 0 {
        assert(x.push(sep) + y =~= x.push(sep));
        assert(x.push(sep).drop_last() =~= x);
        assert(split(x, sep).push(Seq::empty()) =~= split(x, sep) + seq![Seq::<char>::empty()]);
    } else {
        let z = y.drop_last();
        lemma_split_concat(x, z, sep);
        lemma_split_nonempty(z, sep);
        let w = x.push(sep) + y;
        assert(w.drop_last() =~= x.push(sep) + z);
        assert(w.last() == y.last());
        let p = split(x, sep) + split(z, sep);
        if y.last() == sep {
            assert(p.push(Seq::empty()) =~= split(x, sep) + split(z, sep).push(Seq::empty()));
        } else {
            let q = split(z, sep);
            assert(p.update(p.len() - 1, p.last().push(y.last())) =~= split(x, sep) + q.update(
                q.len() - 1,
                q.last().push(y.last()),
            ));
        }
    }
}

proof fn lemma_digit_char(d: nat)
    requires
        d < 10,
    ensures
        is_dec(digit_char(d)),
        digit_value(digit_char(d)) == d,
        d > 0 ==> digit_char(d) != '0',
{
    assert(digit_char(d) == seq!['0', '1', '2', '3', '4', '5', '6', '7', '8', '9', 'a', 'b', 'c', 'd', 'e', 'f'][d as int]);
}

proof fn lemma_dec_text(n: nat)
    ensures
        all_dec(dec_text(n)),
        number(dec_text(n), 10) == n,
        dec_text(n).len() >= 1,
        n < 10 ==> dec_text(n).len() == 1,
        n < 100 ==> dec_text(n).len() <= 2,
        n < 1000 ==> dec_text(n).len() <= 3,
        n > 0 ==> dec_text(n)[0] != '0',
    decreases n,
{
    lemma_digit_char(n % 10);
    if n < 10 {
        assert(dec_text(n) == seq![digit_char(n)]);
        assert(seq![digit_char(n)].drop_last() =~= Seq::<char>::empty());
        assert(number(Seq::<char>::empty(), 10) == 0);
        assert(n % 10 == n);
    } else {
        lemma_dec_text(n / 10);
        let t = dec_text(n);
        assert(t == dec_text(n / 10).push(digit_char(n % 10)));
        assert(t.drop_last() =~= dec_text(n / 10));
        assert(number(t, 10) == number(dec_text(n / 10), 10) * 10 + digit_value(t.last()));
        assert((n / 10) * 10 + n % 10 == n);
        assert forall|i: int| 0 <= i < t.len() implies is_dec(#[trigger] t[i]) by {
            if i < t.len() - 1 {
                assert(t[i] == dec_text(n / 10)[i]);
            }
        };
    }
}

proof fn lemma_dec_has_no(n: nat, c: char)
    requires
        !is_dec(c),
    ensures
        !dec_text(n).contains(c),
{
    lemma_dec_text(n);
    if dec_text(n).contains(c) {
        let k = choose|k: int| 0 <= k < dec_text(n).len() && dec_text(n)[k] == c;
        assert(is_dec(dec_text(n)[k]));
    }
}

proof fn lemma_octet_text(n: u8)
    ensures
        octet_of(dec_text(n as nat)) == Some(n),
        split(dec_text(n as nat), '.') == seq![dec_text(n as nat)],
{
    lemma_dec_text(n as nat);
    lemma_dec_has_no(n as nat, '.');
    lemma_split_without_sep(dec_text(n as nat), '.');
    if dec_text(n as nat).len() > 1 {
        assert(n as nat >= 10);
    }
}

/// The text of an IPv4 address reads back as that address.
pub proof fn lemma_v4_text_reads_back(a: u8, b: u8, c: u8, d: u8)
    ensures
        ip_of(v4_text(a as nat, b as nat, c as nat, d as nat)) == Some(IpAddress::V4(a, b, c, d)),
{
    let (ta, tb, tc, td) = (dec_text(a as nat), dec_text(b as nat), dec_text(c as nat), dec_text(d as nat));
    lemma_octet_text(a);
    lemma_octet_text(b);
    lemma_octet_text(c);
    lemma_octet_text(d);
    let x1 = ta.push('.') + tb;
    let x2 = x1.push('.') + tc;
    let s = x2.push('.') + td;
    assert(s =~= v4_text(a as nat, b as nat, c as nat, d as nat));
    lemma_split_concat(ta, tb, '.');
    lemma_split_concat(x1, tc, '.');
    lemma_split_concat(x2, td, '.');
    let p = split(s, '.');
    assert(p =~= seq![ta, tb, tc, td]);
    lemma_dec_has_no(a as nat, ':');
    lemma_dec_has_no(b as nat, ':');
    lemma_dec_has_no(c as nat, ':');
    lemma_dec_has_no(d as nat, ':');
    assert(!s.contains(':')) by {
        if s.contains(':') {
            let k = choose|k: int| 0 <= k < s.len() && s[k] == ':';
            if k < ta.len() {
                assert(ta[k] == ':');
            } else if k == ta.len() {
            } else if k < ta.len() + 1 + tb.len() {
                assert(tb[k - ta.len() - 1] == ':');
            } else if k == ta.len() + 1 + tb.len() {
            } else if k < x1.len() + 1 + tc.len() {
                assert(tc[k - x1.len() - 1] == ':');
            } else if k == x1.len() + 1 + tc.len() {
            } else {
                assert(td[k - x2.len() - 1] == ':');
            }
        }
    };
}

} // verus!

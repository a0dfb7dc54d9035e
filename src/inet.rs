//! The addresses that the `ip` tool lists for the device, and the changes
//! that bring them to the local server's own address.
use vstd::prelude::*;

use crate::addr::IpAddress;
use crate::error::MeshError;
use crate::interface::{address_changes, address_plan, AddrChange};
use crate::parse::{ip_of, parse_ip, parse_prefix_len, prefix_len_of};
use crate::schema::{find_server, has_named, is_first_named, Server, ServerConfig};

verus! {

/// The pattern of an address in the listing of `ip addr show`:
/// `inet <addr>/<len>` or `inet6 <addr>/<len>`.
pub const INET_PATTERN: &'static str = r"inet6? ([^\s]+)/(\d+)";

/// Whether `pattern` is a well-formed regular expression.
pub uninterp spec fn regex_compiles(pattern: Seq<char>) -> bool;

/// For each match of the regular expression `pattern` in `text`, left to
/// right, the text of its first and of its second capture group.
pub uninterp spec fn regex_pairs(pattern: Seq<char>, text: Seq<char>) -> Seq<(Seq<char>, Seq<char>)>;

pub open spec fn pair_views(v: Seq<(String, String)>) -> Seq<(Seq<char>, Seq<char>)> {
    v.map_values(|p: (String, String)| (p.0@, p.1@))
}

/// Relies on regex::Regex::new, which fails on a malformed pattern, and on
/// Regex::captures_iter with Captures::get: the first two groups of each
/// match, in order (a group that took no part stands as an empty string).
#[verifier::external_body]
fn capture_pairs(pattern: &str, text: &str) -> (r: Option<Vec<(String, String)>>)
    ensures
        r is Some <==> regex_compiles(pattern@),
        r matches Some(v) ==> pair_views(v@) == regex_pairs(pattern@, text@),
{
    match regex::Regex::new(pattern) {
        Ok(re) => Some(
            re.captures_iter(text).map(|c| (
                c.get(1).map_or(String::new(), |m| m.as_str().to_owned()),
                c.get(2).map_or(String::new(), |m| m.as_str().to_owned()),
            )).collect(),
        ),
        Err(_) => None,
    }
}

/// The addresses and prefix lengths that the texts stand for, where every
/// one of them reads as such.
pub open spec fn parse_entries(entries: Seq<(Seq<char>, Seq<char>)>) -> Option<Seq<(IpAddress, u8)>> {
    if forall|i: int|
        0 <= i < entries.len() ==> (#[trigger] ip_of(entries[i].0)) is Some && prefix_len_of(
            entries[i].1,
        ) is Some {
        Some(entries.map_values(|e: (Seq<char>, Seq<char>)| (ip_of(e.0)->Some_0, prefix_len_of(e.1)->Some_0)))
    } else {
        None
    }
}

/// What correcting the addresses gives, from the listed address texts: the
/// changes that leave the local server's address alone on the device, with
/// the mesh's prefix length; `NotRegistered` where the local server is not in
/// `servers`, else `MalformedAddress` where a listed text is not an address
/// and a prefix length.
pub open spec fn address_plan_result(
    config: ServerConfig,
    servers: Seq<Server>,
    entries: Seq<(Seq<char>, Seq<char>)>,
    r: Result<Vec<AddrChange>, MeshError>,
) -> bool {
    if !has_named(servers, config.name@) {
        r == Err::<Vec<AddrChange>, MeshError>(MeshError::NotRegistered)
    } else if parse_entries(entries) is None {
        r == Err::<Vec<AddrChange>, MeshError>(MeshError::MalformedAddress)
    } else {
        r is Ok && exists|i: int|
            is_first_named(servers, config.name@, i) && r->Ok_0@ == address_changes(
                parse_entries(entries)->Some_0,
                (servers[i].address, config.netmask_len),
            )
    }
}

/// Reads the listed addresses and prefix lengths.
pub fn parse_entries_exec(entries: &Vec<(String, String)>) -> (r: Option<Vec<(IpAddress, u8)>>)
    ensures
        match r {
            Some(v) => parse_entries(pair_views(entries@)) == Some(v@),
            None => parse_entries(pair_views(entries@)) is None,
        },
{
    let ghost ev = pair_views(entries@);
    let mut out: Vec<(IpAddress, u8)> = Vec::new();
    let mut i: usize = 0;
    while i < entries.len()
        invariant
            i <= entries@.len(),
            ev == pair_views(entries@),
            out@.len() == i,
            forall|j: int|
                0 <= j < i ==> (#[trigger] ip_of(ev[j].0)) is Some && prefix_len_of(ev[j].1) is Some
                    && out@[j] == (ip_of(ev[j].0)->Some_0, prefix_len_of(ev[j].1)->Some_0),
        decreases entries@.len() - i,
    {
        assert(ev[i as int] == (entries@[i as int].0@, entries@[i as int].1@));
        let a = parse_ip(entries[i].0.as_str());
        let l = parse_prefix_len(entries[i].1.as_str());
        match (a, l) {
            (Some(a), Some(l)) => {
                out.push((a, l));
            },
            _ => {
                assert(!(ip_of(ev[i as int].0) is Some && prefix_len_of(ev[i as int].1) is Some));
                return None;
            },
        }
        i = i + 1;
    }
    assert(out@ =~= ev.map_values(|e: (Seq<char>, Seq<char>)| (ip_of(e.0)->Some_0, prefix_len_of(e.1)->Some_0)));
    Some(out)
}

/// The changes that leave the local server's address alone on the device,
/// from the address texts that the device listing holds.
pub fn plan_from_entries(
    config: &ServerConfig,
    servers: &Vec<Server>,
    entries: &Vec<(String, String)>,
) -> (r: Result<Vec<AddrChange>, MeshError>)
    ensures
        address_plan_result(*config, servers@, pair_views(entries@), r),
{
    let i = match find_server(servers, &config.name) {
        None => {
            return Err(MeshError::NotRegistered);
        },
        Some(i) => i,
    };
    match parse_entries_exec(entries) {
        None => Err(MeshError::MalformedAddress),
        Some(observed) => {
            let plan = address_plan(&observed, servers[i].address, config.netmask_len);
            Ok(plan)
        },
    }
}

/// The changes that leave the local server's address alone on the device,
/// from the text that `ip addr show` printed for it. Where the pattern of an
/// address listing did not compile, no listed text can be read as an address:
/// `MalformedAddress`.
pub fn ensure_ip(config: &ServerConfig, servers: &Vec<Server>, output: &str) -> (r: Result<Vec<AddrChange>, MeshError>)
    ensures
        regex_compiles(INET_PATTERN@) ==> address_plan_result(
            *config,
            servers@,
            regex_pairs(INET_PATTERN@, output@),
            r,
        ),
        !regex_compiles(INET_PATTERN@) ==> r == Err::<Vec<AddrChange>, MeshError>(MeshError::MalformedAddress),
{
    match capture_pairs(INET_PATTERN, output) {
        None => Err(MeshError::MalformedAddress),
        Some(entries) => plan_from_entries(config, servers, &entries),
    }
}

} // verus!

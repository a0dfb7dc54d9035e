//! WireGuard configuration text of a server and of a client.
use vstd::prelude::*;

use crate::addr::IpAddress;
use crate::error::MeshError;
use crate::schema::{find_server, has_named, is_first_named, ClientConnection, Server, ServerConfig, ServerConnection};
use crate::text::{dec_text, push_char, push_dec};

verus! {

/// `PersistentKeepalive` line, where a keep-alive is configured.
pub open spec fn keepalive_text(keepalive: Option<u32>) -> Seq<char> {
    match keepalive {
        Some(k) => "PersistentKeepalive = "@ + dec_text(k as nat) + seq!['\n'],
        None => Seq::empty(),
    }
}

/// The `[Interface]` stanza of a server listening on `port`.
pub open spec fn interface_text(config: ServerConfig, port: u16) -> Seq<char> {
    "[Interface]\n"@ + "ListenPort = "@ + dec_text(port as nat) + seq!['\n'] + "PrivateKey = "@
        + config.private_key@ + seq!['\n']
}

/// The `[Peer]` stanza for another server: its whole subnet, and its endpoint.
pub open spec fn server_peer_text(config: ServerConfig, server: Server) -> Seq<char> {
    "\n[Peer]\n"@ + "PublicKey = "@ + server.public_key@ + seq!['\n'] + "AllowedIPs = "@
        + server.subnet_addr.text() + seq!['/'] + dec_text(server.subnet_len as nat) + seq!['\n']
        + "Endpoint = "@ + server.public_address.text() + seq![':'] + dec_text(
        server.public_port as nat,
    ) + seq!['\n'] + keepalive_text(config.keepalive)
}

/// The `[Peer]` stanzas for the servers of `servers` other than the local one.
pub open spec fn server_peers_text(config: ServerConfig, servers: Seq<Server>) -> Seq<char>
    decreases servers.len(),
{
    if servers.len() == 0 {
        Seq::empty()
    } else {
        let rest = server_peers_text(config, servers.drop_last());
        if servers.last().name@ == config.name@ {
            rest
        } else {
            rest + server_peer_text(config, servers.last())
        }
    }
}

/// The `[Peer]` stanza for a client: its address alone, with no endpoint.
pub open spec fn client_peer_text(c: ClientConnection) -> Seq<char> {
    "\n[Peer]\n"@ + "PublicKey = "@ + c.client.public_key@ + seq!['\n'] + "AllowedIPs = "@
        + c.address.text() + seq!['/'] + dec_text(c.address.host_len()) + seq!['\n']
}

/// The `[Peer]` stanzas for the clients of `clients`, in order.
pub open spec fn client_peers_text(clients: Seq<ClientConnection>) -> Seq<char>
    decreases clients.len(),
{
    if clients.len() == 0 {
        Seq::empty()
    } else {
        client_peers_text(clients.drop_last()) + client_peer_text(clients.last())
    }
}

/// The whole configuration of the local server `me`.
pub open spec fn server_config_text(
    config: ServerConfig,
    me: Server,
    servers: Seq<Server>,
    clients: Seq<ClientConnection>,
) -> Seq<char> {
    interface_text(config, me.public_port) + server_peers_text(config, servers)
        + client_peers_text(clients)
}

/// What rendering the local server's configuration gives: the configuration
/// built around the first server named as the local one, or `NotRegistered`
/// where there is none.
pub open spec fn server_config_result(
    config: ServerConfig,
    servers: Seq<Server>,
    clients: Seq<ClientConnection>,
    r: Result<String, MeshError>,
) -> bool {
    match r {
        Ok(t) => exists|i: int|
            is_first_named(servers, config.name@, i) && t@ == server_config_text(
                config,
                servers[i],
                servers,
                clients,
            ),
        Err(e) => e == MeshError::NotRegistered && !has_named(servers, config.name@),
    }
}

fn push_keepalive(s: &mut String, keepalive: Option<u32>)
    ensures
        final(s)@ == old(s)@ + keepalive_text(keepalive),
{
    if let Some(k) = keepalive {
        s.append("PersistentKeepalive = ");
        push_dec(s, k as u64);
        push_char(s, '\n');
    }
    assert(final(s)@ =~= old(s)@ + keepalive_text(keepalive));
}

/// Appends `addr/len`.
fn push_prefix(s: &mut String, addr: &IpAddress, len: u8)
    ensures
        final(s)@ == old(s)@ + addr.text() + seq!['/'] + dec_text(len as nat),
{
    addr.write_to(s);
    push_char(s, '/');
    push_dec(s, len as u64);
    assert(final(s)@ =~= old(s)@ + addr.text() + seq!['/'] + dec_text(len as nat));
}

/// The `[Interface]` stanza of the local server.
pub fn gen_server_interface(config: &ServerConfig, server: &Server) -> (r: String)
    ensures
        r@ == interface_text(*config, server.public_port),
{
    let mut conf = String::new();
    conf.append("[Interface]\n");
    conf.append("ListenPort = ");
    push_dec(&mut conf, server.public_port as u64);
    push_char(&mut conf, '\n');
    conf.append("PrivateKey = ");
    conf.append(config.private_key.as_str());
    push_char(&mut conf, '\n');
    assert(conf@ =~= interface_text(*config, server.public_port));
    conf
}

fn push_server_peer(s: &mut String, config: &ServerConfig, server: &Server)
    ensures
        final(s)@ == old(s)@ + server_peer_text(*config, *server),
{
    s.append("\n[Peer]\n");
    s.append("PublicKey = ");
    s.append(server.public_key.as_str());
    push_char(s, '\n');
    s.append("AllowedIPs = ");
    push_prefix(s, &server.subnet_addr, server.subnet_len);
    push_char(s, '\n');
    s.append("Endpoint = ");
    server.public_address.write_to(s);
    push_char(s, ':');
    push_dec(s, server.public_port as u64);
    push_char(s, '\n');
    push_keepalive(s, config.keepalive);
    assert(final(s)@ =~= old(s)@ + server_peer_text(*config, *server));
}

/// The `[Peer]` stanzas for the other servers of the mesh: the local server,
/// recognised by its name, is left out.
pub fn gen_server_to_server_peers(config: &ServerConfig, servers: &Vec<Server>) -> (r: String)
    ensures
        r@ == server_peers_text(*config, servers@),
{
    let mut conf = String::new();
    let mut i: usize = 0;
    while i < servers.len()
        invariant
            i <= servers@.len(),
            conf@ == server_peers_text(*config, servers@.subrange(0, i as int)),
        decreases servers@.len() - i,
    {
        if servers[i].name != config.name {
            push_server_peer(&mut conf, config, &servers[i]);
        }
        proof {
            let sub = servers@.subrange(0, i + 1);
            assert(sub.drop_last() =~= servers@.subrange(0, i as int));
        }
        i = i + 1;
    }
    assert(servers@.subrange(0, i as int) =~= servers@);
    conf
}

fn push_client_peer(s: &mut String, c: &ClientConnection)
    ensures
        final(s)@ == old(s)@ + client_peer_text(*c),
{
    s.append("\n[Peer]\n");
    s.append("PublicKey = ");
    s.append(c.client.public_key.as_str());
    push_char(s, '\n');
    s.append("AllowedIPs = ");
    push_prefix(s, &c.address, c.address.host_prefix_len());
    push_char(s, '\n');
    assert(final(s)@ =~= old(s)@ + client_peer_text(*c));
}

/// The `[Peer]` stanzas for the clients authorized on the local server, each
/// allowed its own address alone (`/32` or `/128`).
pub fn gen_server_to_client_peers(clients: &Vec<ClientConnection>) -> (r: String)
    ensures
        r@ == client_peers_text(clients@),
{
    let mut conf = String::new();
    let mut i: usize = 0;
    while i < clients.len()
        invariant
            i <= clients@.len(),
            conf@ == client_peers_text(clients@.subrange(0, i as int)),
        decreases clients@.len() - i,
    {
        push_client_peer(&mut conf, &clients[i]);
        proof {
            let sub = clients@.subrange(0, i + 1);
            assert(sub.drop_last() =~= clients@.subrange(0, i as int));
        }
        i = i + 1;
    }
    assert(clients@.subrange(0, i as int) =~= clients@);
    conf
}

/// The WireGuard configuration of the local server: its interface, then the
/// other servers, then its clients. Fails with `NotRegistered` where no server
/// carries the local name.
pub fn gen_server_config(
    config: &ServerConfig,
    servers: &Vec<Server>,
    clients: &Vec<ClientConnection>,
) -> (r: Result<String, MeshError>)
    ensures
        server_config_result(*config, servers@, clients@, r),
{
    match find_server(servers, &config.name) {
        None => Err(MeshError::NotRegistered),
        Some(i) => {
            let mut conf = gen_server_interface(config, &servers[i]);
            let peers = gen_server_to_server_peers(config, servers);
            conf.append(peers.as_str());
            let clients_conf = gen_server_to_client_peers(clients);
            conf.append(clients_conf.as_str());
            assert(conf@ =~= server_config_text(*config, servers@[i as int], servers@, clients@));
            Ok(conf)
        },
    }
}

/// The key written where the client's private key was not given.
pub open spec fn key_placeholder() -> Seq<char> {
    "<insert your private key>"@
}

/// The client's addresses on its servers, each with the mesh's prefix length,
/// separated by commas.
pub open spec fn client_addresses_text(config: ServerConfig, conns: Seq<ServerConnection>) -> Seq<char>
    decreases conns.len(),
{
    if conns.len() == 0 {
        Seq::empty()
    } else {
        let last = conns.last().address.text() + seq!['/'] + dec_text(config.netmask_len as nat);
        if conns.len() == 1 {
            last
        } else {
            client_addresses_text(config, conns.drop_last()) + seq![','] + last
        }
    }
}

/// The `[Peer]` stanza of a client for one of its servers: the whole mesh is
/// routed through it.
pub open spec fn client_server_peer_text(config: ServerConfig, c: ServerConnection) -> Seq<char> {
    "\n[Peer]\n"@ + "PublicKey = "@ + c.server.public_key@ + seq!['\n'] + "AllowedIPs = "@
        + config.network@ + seq!['/'] + dec_text(config.netmask_len as nat) + seq!['\n']
        + "Endpoint = "@ + c.server.public_address.text() + seq![':'] + dec_text(
        c.server.public_port as nat,
    ) + seq!['\n'] + keepalive_text(config.keepalive)
}

/// The `[Peer]` stanzas of a client for its servers, in order.
pub open spec fn client_server_peers_text(config: ServerConfig, conns: Seq<ServerConnection>) -> Seq<char>
    decreases conns.len(),
{
    if conns.len() == 0 {
        Seq::empty()
    } else {
        client_server_peers_text(config, conns.drop_last()) + client_server_peer_text(
            config,
            conns.last(),
        )
    }
}

/// The whole configuration of a client whose private key is `key`.
pub open spec fn client_config_text(
    config: ServerConfig,
    conns: Seq<ServerConnection>,
    key: Seq<char>,
) -> Seq<char> {
    "[Interface]\n"@ + "PrivateKey = "@ + key + seq!['\n'] + "Address = "@ + client_addresses_text(
        config,
        conns,
    ) + seq!['\n'] + client_server_peers_text(config, conns)
}

fn push_client_server_peer(s: &mut String, config: &ServerConfig, c: &ServerConnection)
    ensures
        final(s)@ == old(s)@ + client_server_peer_text(*config, *c),
{
    s.append("\n[Peer]\n");
    s.append("PublicKey = ");
    s.append(c.server.public_key.as_str());
    push_char(s, '\n');
    s.append("AllowedIPs = ");
    s.append(config.network.as_str());
    push_char(s, '/');
    push_dec(s, config.netmask_len as u64);
    push_char(s, '\n');
    s.append("Endpoint = ");
    c.server.public_address.write_to(s);
    push_char(s, ':');
    push_dec(s, c.server.public_port as u64);
    push_char(s, '\n');
    push_keepalive(s, config.keepalive);
    assert(final(s)@ =~= old(s)@ + client_server_peer_text(*config, *c));
}

/// The configuration of a client, from the servers it may reach. Where no
/// private key is given a placeholder stands in its place. Fails with
/// `NoConnection` where the client may reach no server.
pub fn gen_client_config(
    config: &ServerConfig,
    connections: &Vec<ServerConnection>,
    private_key: Option<String>,
) -> (r: Result<String, MeshError>)
    ensures
        connections@.len() == 0 ==> r == Err::<String, MeshError>(MeshError::NoConnection),
        connections@.len() > 0 ==> r is Ok && r->Ok_0@ == client_config_text(
            *config,
            connections@,
            match private_key {
                Some(k) => k@,
                None => key_placeholder(),
            },
        ),
{
    if connections.len() == 0 {
        return Err(MeshError::NoConnection);
    }
    let mut conf = String::new();
    conf.append("[Interface]\n");
    conf.append("PrivateKey = ");
    match &private_key {
        Some(k) => conf.append(k.as_str()),
        None => conf.append("<insert your private key>"),
    }
    push_char(&mut conf, '\n');
    conf.append("Address = ");
    let ghost head = conf@;
    let mut i: usize = 0;
    while i < connections.len()
        invariant
            i <= connections@.len(),
            conf@ == head + client_addresses_text(*config, connections@.subrange(0, i as int)),
        decreases connections@.len() - i,
    {
        if i > 0 {
            push_char(&mut conf, ',');
        }
        push_prefix(&mut conf, &connections[i].address, config.netmask_len);
        proof {
            let sub = connections@.subrange(0, i + 1);
            assert(sub.drop_last() =~= connections@.subrange(0, i as int));
            if i == 0 {
                assert(client_addresses_text(*config, connections@.subrange(0, 0)) =~= Seq::<char>::empty());
            }
            assert(conf@ =~= head + client_addresses_text(*config, sub));
        }
        i = i + 1;
    }
    assert(connections@.subrange(0, i as int) =~= connections@);
    push_char(&mut conf, '\n');
    let ghost body = conf@;
    let mut j: usize = 0;
    while j < connections.len()
        invariant
            j <= connections@.len(),
            conf@ == body + client_server_peers_text(*config, connections@.subrange(0, j as int)),
        decreases connections@.len() - j,
    {
        push_client_server_peer(&mut conf, config, &connections[j]);
        proof {
            let sub = connections@.subrange(0, j + 1);
            assert(sub.drop_last() =~= connections@.subrange(0, j as int));
            assert(conf@ =~= body + client_server_peers_text(*config, sub));
        }
        j = j + 1;
    }
    assert(connections@.subrange(0, j as int) =~= connections@);
    let ghost key = match private_key {
        Some(k) => k@,
        None => key_placeholder(),
    };
    assert(conf@ =~= client_config_text(*config, connections@, key));
    Ok(conf)
}

/// Rendering the local server's configuration is deterministic: any two
/// results for the same inputs are the same, byte for byte.
pub proof fn lemma_server_config_deterministic(
    config: ServerConfig,
    servers: Seq<Server>,
    clients: Seq<ClientConnection>,
    r1: Result<String, MeshError>,
    r2: Result<String, MeshError>,
)
    requires
        server_config_result(config, servers, clients, r1),
        server_config_result(config, servers, clients, r2),
    ensures
        r1 is Ok <==> r2 is Ok,
        r1 is Ok ==> r1->Ok_0@ == r2->Ok_0@,
        r1 is Err ==> r1->Err_0 == r2->Err_0,
{
    if r1 is Ok && r2 is Ok {
        let i1 = choose|i: int|
            is_first_named(servers, config.name@, i) && r1->Ok_0@ == server_config_text(config, servers[i], servers, clients);
        let i2 = choose|i: int|
            is_first_named(servers, config.name@, i) && r2->Ok_0@ == server_config_text(config, servers[i], servers, clients);
        if i1 < i2 {
            assert(servers[i1].name@ != config.name@);
        } else if i2 < i1 {
            assert(servers[i2].name@ != config.name@);
        }
    } else if r1 is Ok {
        let i1 = choose|i: int|
            is_first_named(servers, config.name@, i) && r1->Ok_0@ == server_config_text(config, servers[i], servers, clients);
        assert(servers[i1].name@ == config.name@);
    } else if r2 is Ok {
        let i2 = choose|i: int|
            is_first_named(servers, config.name@, i) && r2->Ok_0@ == server_config_text(config, servers[i], servers, clients);
        assert(servers[i2].name@ == config.name@);
    }
}

/// The local server is never its own peer: the server peers rendered from
/// `servers` are those rendered from `servers` with every server of the local
/// name taken out.
pub proof fn lemma_server_peers_omit_local(config: ServerConfig, servers: Seq<Server>)
    ensures
        server_peers_text(config, servers) == server_peers_text(
            config,
            servers.filter(|s: Server| s.name@ != config.name@),
        ),
    decreases servers.len(),
{
    reveal(Seq::filter);
    let pred = |s: Server| s.name@ != config.name@;
    if servers.len() > 0 {
        lemma_server_peers_omit_local(config, servers.drop_last());
        let f = servers.filter(pred);
        if pred(servers.last()) {
            assert(f.drop_last() =~= servers.drop_last().filter(pred));
        }
    }
}

/// Each client is allowed its own address alone: `/32` for an IPv4 address,
/// `/128` for an IPv6 one, whatever the subnet of the server.
pub proof fn lemma_client_prefix_policy(c: ClientConnection)
    ensures
        client_peer_text(c) == "\n[Peer]\n"@ + "PublicKey = "@ + c.client.public_key@ + seq!['\n']
            + "AllowedIPs = "@ + c.address.text() + (if c.address.is_ipv4() {
            seq!['/', '3', '2']
        } else {
            seq!['/', '1', '2', '8']
        }) + seq!['\n'],
{
    reveal_with_fuel(dec_text, 3);
    assert(dec_text(32) =~= seq!['3', '2']);
    assert(dec_text(128) =~= seq!['1', '2', '8']);
    if c.address.is_ipv4() {
        assert(seq!['/'] + dec_text(32) =~= seq!['/', '3', '2']);
    } else {
        assert(seq!['/'] + dec_text(128) =~= seq!['/', '1', '2', '8']);
    }
}

} // verus!

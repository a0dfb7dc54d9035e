//! Hosts-file text for the DNS server of the mesh.
use vstd::prelude::*;

use crate::addr::IpAddress;
use crate::schema::{ClientConnection, Server, ServerConfig};
use crate::text::{pad_right, push_char, push_padded};

verus! {

/// Width of the address column.
pub const ADDRESS_WIDTH: usize = 20;

/// One record: the address, padded to its column, then the name.
pub open spec fn host_line(addr: IpAddress, name: Seq<char>) -> Seq<char> {
    pad_right(addr.text(), ADDRESS_WIDTH as nat) + seq![' '] + name + seq!['\n']
}

/// The DNS name of a server: `<server>.<base_domain>`.
pub open spec fn server_host_name(config: ServerConfig, s: Server) -> Seq<char> {
    s.name@ + seq!['.'] + config.base_domain@
}

/// The DNS name of a client on a server: `<client>.<server>.<base_domain>`.
pub open spec fn client_host_name(config: ServerConfig, c: ClientConnection) -> Seq<char> {
    c.client.name@ + seq!['.'] + c.server@ + seq!['.'] + config.base_domain@
}

/// The records of the servers, in order.
pub open spec fn server_lines(config: ServerConfig, servers: Seq<Server>) -> Seq<char>
    decreases servers.len(),
{
    if servers.len() == 0 {
        Seq::empty()
    } else {
        server_lines(config, servers.drop_last()) + host_line(
            servers.last().address,
            server_host_name(config, servers.last()),
        )
    }
}

/// The records of the clients, in order.
pub open spec fn client_lines(config: ServerConfig, clients: Seq<ClientConnection>) -> Seq<char>
    decreases clients.len(),
{
    if clients.len() == 0 {
        Seq::empty()
    } else {
        client_lines(config, clients.drop_last()) + host_line(
            clients.last().address,
            client_host_name(config, clients.last()),
        )
    }
}

/// The `# Servers` section.
pub open spec fn server_entries_text(config: ServerConfig, servers: Seq<Server>) -> Seq<char> {
    "# Servers\n"@ + server_lines(config, servers)
}

/// The `# Clients` section, after a blank line.
pub open spec fn client_entries_text(config: ServerConfig, clients: Seq<ClientConnection>) -> Seq<char> {
    "\n# Clients\n"@ + client_lines(config, clients)
}

/// The whole hosts file.
pub open spec fn dns_text(
    config: ServerConfig,
    servers: Seq<Server>,
    clients: Seq<ClientConnection>,
) -> Seq<char> {
    server_entries_text(config, servers) + client_entries_text(config, clients)
}

fn push_host_line(s: &mut String, addr: &IpAddress, name: &str)
    ensures
        final(s)@ == old(s)@ + host_line(*addr, name@),
{
    let text = addr.to_text();
    push_padded(s, text.as_str(), ADDRESS_WIDTH);
    push_char(s, ' ');
    s.append(name);
    push_char(s, '\n');
    assert(final(s)@ =~= old(s)@ + host_line(*addr, name@));
}

/// The records of every server of the mesh.
pub fn gen_server_entries(config: &ServerConfig, servers: &Vec<Server>) -> (r: String)
    ensures
        r@ == server_entries_text(*config, servers@),
{
    let mut res = String::new();
    res.append("# Servers\n");
    let ghost head = res@;
    let mut i: usize = 0;
    while i < servers.len()
        invariant
            i <= servers@.len(),
            res@ == head + server_lines(*config, servers@.subrange(0, i as int)),
        decreases servers@.len() - i,
    {
        let server = &servers[i];
        let mut name = String::new();
        name.append(server.name.as_str());
        push_char(&mut name, '.');
        name.append(config.base_domain.as_str());
        push_host_line(&mut res, &server.address, name.as_str());
        proof {
            let sub = servers@.subrange(0, i + 1);
            assert(sub.drop_last() =~= servers@.subrange(0, i as int));
            assert(name@ =~= server_host_name(*config, *server));
            assert(res@ =~= head + server_lines(*config, sub));
        }
        i = i + 1;
    }
    assert(servers@.subrange(0, i as int) =~= servers@);
    res
}

/// The records of every client connected to the local server.
pub fn gen_clients_entries(config: &ServerConfig, clients: &Vec<ClientConnection>) -> (r: String)
    ensures
        r@ == client_entries_text(*config, clients@),
{
    let mut res = String::new();
    res.append("\n# Clients\n");
    let ghost head = res@;
    let mut i: usize = 0;
    while i < clients.len()
        invariant
            i <= clients@.len(),
            res@ == head + client_lines(*config, clients@.subrange(0, i as int)),
        decreases clients@.len() - i,
    {
        let c = &clients[i];
        let mut name = String::new();
        name.append(c.client.name.as_str());
        push_char(&mut name, '.');
        name.append(c.server.as_str());
        push_char(&mut name, '.');
        name.append(config.base_domain.as_str());
        push_host_line(&mut res, &c.address, name.as_str());
        proof {
            let sub = clients@.subrange(0, i + 1);
            assert(sub.drop_last() =~= clients@.subrange(0, i as int));
            assert(name@ =~= client_host_name(*config, *c));
            assert(res@ =~= head + client_lines(*config, sub));
        }
        i = i + 1;
    }
    assert(clients@.subrange(0, i as int) =~= clients@);
    res
}

/// The hosts file: every server, then every client of the local server.
pub fn gen_dns_config(
    config: &ServerConfig,
    servers: &Vec<Server>,
    clients: &Vec<ClientConnection>,
) -> (r: String)
    ensures
        r@ == dns_text(*config, servers@, clients@),
{
    let mut conf = gen_server_entries(config, servers);
    let entries = gen_clients_entries(config, clients);
    conf.append(entries.as_str());
    conf
}

} // verus!

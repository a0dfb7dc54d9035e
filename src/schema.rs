//! The entities of the mesh, as read from the database, and the local configuration.
use vstd::prelude::*;

use crate::addr::IpAddress;
use crate::error::MeshError;
use crate::parse::{ip_of, parse_ip};

verus! {

/// The private configuration of the local server, loaded once at start.
#[derive(Clone, Debug, PartialEq, Eq, PartialOrd, Ord)]
pub struct ServerConfig {
    /// The name of the server: the database must hold a server of that name.
    pub name: String,
    /// The private key of the server.
    pub private_key: String,
    /// A keep-alive interval, in seconds, used for every peer.
    pub keepalive: Option<u32>,
    /// The name of the network device.
    pub device_name: String,
    /// The connection string of the database.
    pub database_url: String,
    /// Domain suffix of the DNS names, without the leading dot.
    pub base_domain: String,
    /// Path of the hosts file written for the DNS server.
    pub dns_hosts_file: String,
    /// The whole private network.
    pub network: String,
    /// Prefix length of the whole private network.
    pub netmask_len: u8,
    /// Address on which the web interface listens.
    pub web_listen_address: String,
    /// Port on which the web interface listens.
    pub web_listen_port: u16,
    /// Directory of the static web content.
    pub web_static_dir: String,
}

/// A server of the mesh.
#[derive(Clone, Debug, PartialEq, Eq, PartialOrd, Ord)]
pub struct Server {
    /// The name of the server, unique in the mesh.
    pub name: String,
    /// The subnet that the server manages for its clients.
    pub subnet_addr: IpAddress,
    /// The prefix length of that subnet.
    pub subnet_len: u8,
    /// The address of the server inside its subnet.
    pub address: IpAddress,
    /// The address at which the server is reached from outside.
    pub public_address: IpAddress,
    /// The port WireGuard listens on.
    pub public_port: u16,
    /// The public key of the server.
    pub public_key: String,
}

/// A client of the mesh.
#[derive(Clone, Debug, PartialEq, Eq, PartialOrd, Ord)]
pub struct Client {
    /// The name of the client, unique in the mesh.
    pub name: String,
    /// The public key of the client.
    pub public_key: String,
}

/// A client authorized on a server, with its address there.
#[derive(Clone, Debug, PartialEq, Eq, PartialOrd, Ord)]
pub struct ClientConnection {
    /// The name of the server.
    pub server: String,
    /// The client.
    pub client: Client,
    /// The address of the client on that server.
    pub address: IpAddress,
}

/// A server that a client may reach, with the client's address there.
#[derive(Clone, Debug, PartialEq, Eq, PartialOrd, Ord)]
pub struct ServerConnection {
    /// The server.
    pub server: Server,
    /// The address of the client on that server.
    pub address: IpAddress,
}

/// `i` is the first index of `servers` whose server is called `name`.
pub open spec fn is_first_named(servers: Seq<Server>, name: Seq<char>, i: int) -> bool {
    &&& 0 <= i < servers.len()
    &&& servers[i].name@ == name
    &&& forall|j: int| 0 <= j < i ==> servers[j].name@ != name
}

/// Whether some server of `servers` is called `name`.
pub open spec fn has_named(servers: Seq<Server>, name: Seq<char>) -> bool {
    exists|j: int| 0 <= j < servers.len() && servers[j].name@ == name
}

/// The index of the first server called `name`, if there is one.
pub fn find_server(servers: &Vec<Server>, name: &String) -> (r: Option<usize>)
    ensures
        match r {
            Some(i) => is_first_named(servers@, name@, i as int),
            None => !has_named(servers@, name@),
        },
{
    let mut i: usize = 0;
    while i < servers.len()
        invariant
            i <= servers@.len(),
            forall|j: int| 0 <= j < i ==> servers@[j].name@ != name@,
        decreases servers@.len() - i,
    {
        if servers[i].name == *name {
            return Some(i);
        }
        i = i + 1;
    }
    None
}

impl Server {
    /// A server from the columns of its row: the name, the subnet's address
    /// and prefix length, its own address, its public address and port, and
    /// its public key. The database gives the integers as `i32`; they are
    /// taken modulo 256 and 65536. Fails with `MalformedAddress` where an
    /// address column does not hold an address.
    pub fn from_sql(
        name: String,
        subnet: &str,
        subnet_len: i32,
        address: &str,
        public_address: &str,
        public_port: i32,
        public_key: String,
    ) -> (r: Result<Server, MeshError>)
        ensures
            match (ip_of(subnet@), ip_of(address@), ip_of(public_address@)) {
                (Some(s), Some(a), Some(p)) => r == Ok::<Server, MeshError>(
                    Server {
                        name,
                        subnet_addr: s,
                        subnet_len: subnet_len as u8,
                        address: a,
                        public_address: p,
                        public_port: public_port as u16,
                        public_key,
                    },
                ),
                _ => r == Err::<Server, MeshError>(MeshError::MalformedAddress),
            },
    {
        match (parse_ip(subnet), parse_ip(address), parse_ip(public_address)) {
            (Some(s), Some(a), Some(p)) => Ok(
                Server {
                    name,
                    subnet_addr: s,
                    subnet_len: subnet_len as u8,
                    address: a,
                    public_address: p,
                    public_port: public_port as u16,
                    public_key,
                },
            ),
            _ => Err(MeshError::MalformedAddress),
        }
    }
}

impl ClientConnection {
    /// A connection from the columns of its row: the server's name, the
    /// client's name and public key, and the client's address. Fails with
    /// `MalformedAddress` where the address column does not hold an address.
    pub fn from_sql(server: String, client_name: String, public_key: String, address: &str) -> (r: Result<
        ClientConnection,
        MeshError,
    >)
        ensures
            match ip_of(address@) {
                Some(a) => r == Ok::<ClientConnection, MeshError>(
                    ClientConnection { server, client: Client { name: client_name, public_key }, address: a },
                ),
                None => r == Err::<ClientConnection, MeshError>(MeshError::MalformedAddress),
            },
    {
        match parse_ip(address) {
            Some(a) => Ok(ClientConnection { server, client: Client { name: client_name, public_key }, address: a }),
            None => Err(MeshError::MalformedAddress),
        }
    }
}

impl ServerConnection {
    /// A server that a client may reach, from the server and the client's
    /// address column. Fails with `MalformedAddress` where that column does
    /// not hold an address.
    pub fn from_sql(server: Server, address: &str) -> (r: Result<ServerConnection, MeshError>)
        ensures
            match ip_of(address@) {
                Some(a) => r == Ok::<ServerConnection, MeshError>(ServerConnection { server, address: a }),
                None => r == Err::<ServerConnection, MeshError>(MeshError::MalformedAddress),
            },
    {
        match parse_ip(address) {
            Some(a) => Ok(ServerConnection { server, address: a }),
            None => Err(MeshError::MalformedAddress),
        }
    }
}

/// The schema of the database: the three tables, and the triggers by which
/// any change to them is announced on the `update_server` channel. Running it
/// again changes nothing.
pub const SCHEMA: &'static str = "\
CREATE TABLE IF NOT EXISTS servers (
    name TEXT PRIMARY KEY,
    subnet CIDR NOT NULL,
    address INET NOT NULL,
    public_address INET NOT NULL,
    public_port INTEGER NOT NULL,
    public_key TEXT NOT NULL,
    CHECK (address << subnet)
);
CREATE TABLE IF NOT EXISTS clients (
    name TEXT PRIMARY KEY,
    public_key TEXT NOT NULL
);
CREATE TABLE IF NOT EXISTS connections (
    server TEXT NOT NULL REFERENCES servers(name) ON DELETE CASCADE,
    client TEXT NOT NULL REFERENCES clients(name) ON DELETE CASCADE,
    address INET NOT NULL,
    PRIMARY KEY (server, client)
);
CREATE OR REPLACE FUNCTION notify_update_server() RETURNS TRIGGER AS $$
BEGIN
    NOTIFY update_server;
    RETURN NULL;
END;
$$ LANGUAGE plpgsql;
DROP TRIGGER IF EXISTS servers_update ON servers;
CREATE TRIGGER servers_update AFTER INSERT OR UPDATE OR DELETE OR TRUNCATE ON servers
    FOR EACH STATEMENT EXECUTE PROCEDURE notify_update_server();
DROP TRIGGER IF EXISTS clients_update ON clients;
CREATE TRIGGER clients_update AFTER INSERT OR UPDATE OR DELETE OR TRUNCATE ON clients
    FOR EACH STATEMENT EXECUTE PROCEDURE notify_update_server();
DROP TRIGGER IF EXISTS connections_update ON connections;
CREATE TRIGGER connections_update AFTER INSERT OR UPDATE OR DELETE OR TRUNCATE ON connections
    FOR EACH STATEMENT EXECUTE PROCEDURE notify_update_server();
";

/// Subscribes the session to the change notifications.
pub const LISTEN_STATEMENT: &'static str = "LISTEN update_server";

/// The name of the channel on which changes are announced.
pub const NOTIFY_CHANNEL: &'static str = "update_server";

/// Every server, in the column order that `Server::from_sql` takes.
pub const SERVERS_QUERY: &'static str = "SELECT name, host(subnet), masklen(subnet), host(address), host(public_address), public_port, public_key FROM servers";

/// The servers that client `$1` may reach, in the column order that
/// `Server::from_sql` takes, then the client's address.
pub const SERVER_CONNECTIONS_QUERY: &'static str = "SELECT name, host(subnet), masklen(subnet), host(servers.address), host(public_address), public_port, public_key, host(connections.address) FROM servers JOIN connections ON servers.name = connections.server WHERE connections.client = $1";

/// Every connection, in the column order that `ClientConnection::from_sql` takes.
pub const ALL_CLIENTS_QUERY: &'static str = "SELECT server, name, public_key, host(address) FROM connections JOIN clients ON client = name";

/// The connections to server `$1`, in the column order that
/// `ClientConnection::from_sql` takes.
pub const SERVER_CLIENTS_QUERY: &'static str = "SELECT server, name, public_key, host(address) FROM connections JOIN clients ON client = name WHERE server = $1";

/// The query of the connections: to one server (its name is then the query's
/// parameter), or of the whole mesh.
pub fn clients_query(of_one_server: bool) -> (r: &'static str)
    ensures
        r@ == (if of_one_server {
            SERVER_CLIENTS_QUERY@
        } else {
            ALL_CLIENTS_QUERY@
        }),
{
    if of_one_server {
        SERVER_CLIENTS_QUERY
    } else {
        ALL_CLIENTS_QUERY
    }
}

} // verus!

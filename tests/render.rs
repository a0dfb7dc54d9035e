use wg_mesh::addr::IpAddress;
use wg_mesh::dns::{gen_clients_entries, gen_dns_config, gen_server_entries};
use wg_mesh::error::MeshError;
use wg_mesh::schema::{Client, ClientConnection, Server, ServerConfig, ServerConnection};
use wg_mesh::wireguard::{
    gen_client_config, gen_server_config, gen_server_interface, gen_server_to_client_peers,
    gen_server_to_server_peers,
};

fn config(keepalive: Option<u32>) -> ServerConfig {
    ServerConfig {
        name: "S1".to_string(),
        private_key: "<S1 private key>".to_string(),
        keepalive,
        device_name: "wg0".to_string(),
        database_url: "postgres://localhost/mesh".to_string(),
        base_domain: "mesh.local".to_string(),
        dns_hosts_file: "/etc/hosts.d/mesh".to_string(),
        network: "10.0.0.0".to_string(),
        netmask_len: 16,
        web_listen_address: "127.0.0.1".to_string(),
        web_listen_port: 8080,
        web_static_dir: "/srv/static".to_string(),
    }
}

fn server(name: &str, third: u8, key: &str, port: u16) -> Server {
    Server {
        name: name.to_string(),
        subnet_addr: IpAddress::V4(10, 0, third, 0),
        subnet_len: 24,
        address: IpAddress::V4(10, 0, third, 1),
        public_address: IpAddress::V4(203, 0, 113, third),
        public_port: port,
        public_key: key.to_string(),
    }
}

fn client(server: &str, name: &str, key: &str, address: IpAddress) -> ClientConnection {
    ClientConnection {
        server: server.to_string(),
        client: Client { name: name.to_string(), public_key: key.to_string() },
        address,
    }
}

#[test]
fn end_to_end_server_config() {
    let servers = vec![server("S1", 1, "Ks1", 51820)];
    let clients = vec![client("S1", "C1", "Kc1", IpAddress::V4(10, 0, 1, 2))];
    let conf = gen_server_config(&config(Some(25)), &servers, &clients).unwrap();
    assert_eq!(
        conf,
        "[Interface]\nListenPort = 51820\nPrivateKey = <S1 private key>\n\n[Peer]\nPublicKey = Kc1\nAllowedIPs = 10.0.1.2/32\n"
    );
}

#[test]
fn end_to_end_dns_hosts() {
    let servers = vec![server("S1", 1, "Ks1", 51820)];
    let clients = vec![client("S1", "C1", "Kc1", IpAddress::V4(10, 0, 1, 2))];
    let hosts = gen_dns_config(&config(Some(25)), &servers, &clients);
    let expected = format!(
        "# Servers\n{:<20} S1.mesh.local\n\n# Clients\n{:<20} C1.S1.mesh.local\n",
        "10.0.1.1", "10.0.1.2"
    );
    assert_eq!(hosts, expected);
    assert!(hosts.contains("10.0.1.1             S1.mesh.local\n"));
    assert!(hosts.contains("10.0.1.2             C1.S1.mesh.local\n"));
}

#[test]
fn rendering_is_repeatable_and_omits_self() {
    let cfg = config(Some(25));
    let servers = vec![server("S2", 2, "Ks2", 51821), server("S1", 1, "Ks1", 51820), server("S3", 3, "Ks3", 51822)];
    let clients = vec![client("S1", "C1", "Kc1", IpAddress::V4(10, 0, 1, 2))];
    let a = gen_server_config(&cfg, &servers, &clients).unwrap();
    let b = gen_server_config(&cfg, &servers, &clients).unwrap();
    assert_eq!(a, b);
    assert_eq!(
        a,
        "[Interface]\nListenPort = 51820\nPrivateKey = <S1 private key>\n\
         \n[Peer]\nPublicKey = Ks2\nAllowedIPs = 10.0.2.0/24\nEndpoint = 203.0.113.2:51821\nPersistentKeepalive = 25\n\
         \n[Peer]\nPublicKey = Ks3\nAllowedIPs = 10.0.3.0/24\nEndpoint = 203.0.113.3:51822\nPersistentKeepalive = 25\n\
         \n[Peer]\nPublicKey = Kc1\nAllowedIPs = 10.0.1.2/32\n"
    );
    assert!(!a.contains("PublicKey = Ks1"));
}

#[test]
fn server_peers_without_keepalive() {
    let peers = gen_server_to_server_peers(&config(None), &vec![server("S1", 1, "Ks1", 1), server("S2", 2, "Ks2", 51821)]);
    assert_eq!(peers, "\n[Peer]\nPublicKey = Ks2\nAllowedIPs = 10.0.2.0/24\nEndpoint = 203.0.113.2:51821\n");
}

#[test]
fn server_peers_empty_when_alone() {
    assert_eq!(gen_server_to_server_peers(&config(Some(5)), &vec![server("S1", 1, "Ks1", 1)]), "");
    assert_eq!(gen_server_to_server_peers(&config(Some(5)), &vec![]), "");
}

#[test]
fn client_prefix_is_host_route() {
    let clients = vec![
        client("S1", "C1", "Kc1", IpAddress::V4(10, 0, 1, 2)),
        client("S1", "C2", "Kc2", IpAddress::V6(0xfd00, 0, 0, 0, 0, 0, 0, 2)),
    ];
    let peers = gen_server_to_client_peers(&clients);
    assert_eq!(
        peers,
        "\n[Peer]\nPublicKey = Kc1\nAllowedIPs = 10.0.1.2/32\n\n[Peer]\nPublicKey = Kc2\nAllowedIPs = fd00::2/128\n"
    );
}

#[test]
fn interface_stanza() {
    let s = server("S1", 1, "Ks1", 7);
    assert_eq!(gen_server_interface(&config(None), &s), "[Interface]\nListenPort = 7\nPrivateKey = <S1 private key>\n");
}

#[test]
fn unregistered_server_is_an_error() {
    let servers = vec![server("S2", 2, "Ks2", 51821)];
    assert_eq!(gen_server_config(&config(None), &servers, &vec![]), Err(MeshError::NotRegistered));
    assert_eq!(gen_server_config(&config(None), &vec![], &vec![]), Err(MeshError::NotRegistered));
}

#[test]
fn client_config_with_key() {
    let conns = vec![
        ServerConnection { server: server("S1", 1, "Ks1", 51820), address: IpAddress::V4(10, 0, 1, 2) },
        ServerConnection { server: server("S2", 2, "Ks2", 51821), address: IpAddress::V4(10, 0, 2, 7) },
    ];
    let conf = gen_client_config(&config(Some(25)), &conns, Some("Pc1".to_string())).unwrap();
    assert_eq!(
        conf,
        "[Interface]\nPrivateKey = Pc1\nAddress = 10.0.1.2/16,10.0.2.7/16\n\
         \n[Peer]\nPublicKey = Ks1\nAllowedIPs = 10.0.0.0/16\nEndpoint = 203.0.113.1:51820\nPersistentKeepalive = 25\n\
         \n[Peer]\nPublicKey = Ks2\nAllowedIPs = 10.0.0.0/16\nEndpoint = 203.0.113.2:51821\nPersistentKeepalive = 25\n"
    );
}

#[test]
fn client_config_placeholder_key() {
    let conns = vec![ServerConnection { server: server("S1", 1, "Ks1", 51820), address: IpAddress::V4(10, 0, 1, 2) }];
    let conf = gen_client_config(&config(None), &conns, None).unwrap();
    assert_eq!(
        conf,
        "[Interface]\nPrivateKey = <insert your private key>\nAddress = 10.0.1.2/16\n\
         \n[Peer]\nPublicKey = Ks1\nAllowedIPs = 10.0.0.0/16\nEndpoint = 203.0.113.1:51820\n"
    );
}

#[test]
fn client_config_without_connection() {
    assert_eq!(gen_client_config(&config(None), &vec![], None), Err(MeshError::NoConnection));
}

#[test]
fn dns_sections_empty() {
    let cfg = config(None);
    assert_eq!(gen_server_entries(&cfg, &vec![]), "# Servers\n");
    assert_eq!(gen_clients_entries(&cfg, &vec![]), "\n# Clients\n");
}

#[test]
fn dns_long_address_is_not_cut() {
    let cfg = config(None);
    let clients = vec![client("S1", "C9", "K", IpAddress::V6(0x2001, 0xdb8, 0x1234, 0x5678, 0x9abc, 0xdef0, 0x1234, 0x5678))];
    assert_eq!(
        gen_clients_entries(&cfg, &clients),
        "\n# Clients\n2001:db8:1234:5678:9abc:def0:1234:5678 C9.S1.mesh.local\n"
    );
}

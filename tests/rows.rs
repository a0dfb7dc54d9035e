use wg_mesh::addr::IpAddress;
use wg_mesh::error::MeshError;
use wg_mesh::schema::{clients_query, find_server, ClientConnection, Server, ServerConnection, ALL_CLIENTS_QUERY, SERVER_CLIENTS_QUERY};

#[test]
fn server_from_row() {
    let s = Server::from_sql("S1".to_string(), "10.0.1.0", 24, "10.0.1.1", "203.0.113.1", 51820, "Ks1".to_string()).unwrap();
    assert_eq!(s.subnet_addr, IpAddress::V4(10, 0, 1, 0));
    assert_eq!(s.subnet_len, 24);
    assert_eq!(s.address, IpAddress::V4(10, 0, 1, 1));
    assert_eq!(s.public_address, IpAddress::V4(203, 0, 113, 1));
    assert_eq!(s.public_port, 51820);
    assert_eq!(s.public_key, "Ks1");
}

#[test]
fn server_from_bad_row() {
    let r = Server::from_sql("S1".to_string(), "10.0.1.0", 24, "not-an-address", "203.0.113.1", 1, String::new());
    assert_eq!(r, Err(MeshError::MalformedAddress));
}

#[test]
fn connections_from_rows() {
    let c = ClientConnection::from_sql("S1".to_string(), "C1".to_string(), "Kc1".to_string(), "fd00::2").unwrap();
    assert_eq!(c.address, IpAddress::V6(0xfd00, 0, 0, 0, 0, 0, 0, 2));
    assert_eq!(c.client.name, "C1");
    assert_eq!(
        ClientConnection::from_sql("S1".to_string(), "C1".to_string(), "Kc1".to_string(), "10.0.1"),
        Err(MeshError::MalformedAddress)
    );
    let s = Server::from_sql("S1".to_string(), "10.0.1.0", 24, "10.0.1.1", "203.0.113.1", 51820, "Ks1".to_string()).unwrap();
    let sc = ServerConnection::from_sql(s, "10.0.1.9").unwrap();
    assert_eq!(sc.address, IpAddress::V4(10, 0, 1, 9));
}

#[test]
fn first_server_by_name() {
    let mk = |n: &str, k: &str| {
        Server::from_sql(n.to_string(), "10.0.1.0", 24, "10.0.1.1", "203.0.113.1", 1, k.to_string()).unwrap()
    };
    let servers = vec![mk("A", "1"), mk("B", "2"), mk("B", "3")];
    assert_eq!(find_server(&servers, &"B".to_string()), Some(1));
    assert_eq!(find_server(&servers, &"C".to_string()), None);
}

#[test]
fn client_queries() {
    assert_eq!(clients_query(true), SERVER_CLIENTS_QUERY);
    assert_eq!(clients_query(false), ALL_CLIENTS_QUERY);
    assert!(SERVER_CLIENTS_QUERY.ends_with("WHERE server = $1"));
}

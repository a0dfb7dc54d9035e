use wg_mesh::addr::IpAddress;
use wg_mesh::error::MeshError;
use wg_mesh::inet::{ensure_ip, plan_from_entries};
use wg_mesh::interface::{
    address_plan, command_outcome, ip_command_args, make_interface_next, setconf_args, setconf_outcome, AddrChange,
    IpCommand, LinkNext, LinkStep,
};
use wg_mesh::schema::{Server, ServerConfig};

fn config() -> ServerConfig {
    ServerConfig {
        name: "S1".to_string(),
        private_key: "k".to_string(),
        keepalive: None,
        device_name: "wg0".to_string(),
        database_url: String::new(),
        base_domain: "mesh.local".to_string(),
        dns_hosts_file: String::new(),
        network: "10.0.0.0".to_string(),
        netmask_len: 16,
        web_listen_address: String::new(),
        web_listen_port: 0,
        web_static_dir: String::new(),
    }
}

fn servers() -> Vec<Server> {
    vec![Server {
        name: "S1".to_string(),
        subnet_addr: IpAddress::V4(10, 0, 1, 0),
        subnet_len: 24,
        address: IpAddress::V4(10, 0, 1, 1),
        public_address: IpAddress::V4(203, 0, 113, 1),
        public_port: 51820,
        public_key: "Ks1".to_string(),
    }]
}

/// Applies the changes to a list of addresses, as the device would.
fn apply(mut present: Vec<(IpAddress, u8)>, plan: &[AddrChange]) -> Vec<(IpAddress, u8)> {
    for c in plan {
        match *c {
            AddrChange::Remove(a, l) => present.retain(|x| *x != (a, l)),
            AddrChange::Add(a, l) => {
                if !present.contains(&(a, l)) {
                    present.push((a, l))
                }
            }
        }
    }
    present
}

const WANT: (IpAddress, u8) = (IpAddress::V4(10, 0, 1, 1), 16);

#[test]
fn address_plan_from_nothing() {
    let plan = address_plan(&vec![], WANT.0, WANT.1);
    assert_eq!(plan, vec![AddrChange::Add(WANT.0, WANT.1)]);
    assert_eq!(apply(vec![], &plan), vec![WANT]);
}

#[test]
fn address_plan_already_correct_is_noop() {
    let plan = address_plan(&vec![WANT], WANT.0, WANT.1);
    assert!(plan.is_empty());
}

#[test]
fn address_plan_removes_extras_then_adds() {
    let observed = vec![(IpAddress::V4(10, 0, 1, 1), 24), (IpAddress::V4(10, 0, 9, 9), 16)];
    let plan = address_plan(&observed, WANT.0, WANT.1);
    assert_eq!(
        plan,
        vec![
            AddrChange::Remove(IpAddress::V4(10, 0, 1, 1), 24),
            AddrChange::Remove(IpAddress::V4(10, 0, 9, 9), 16),
            AddrChange::Add(WANT.0, WANT.1),
        ]
    );
    assert_eq!(apply(observed, &plan), vec![WANT]);
}

#[test]
fn address_plan_keeps_desired_among_extras() {
    let observed = vec![(IpAddress::V6(0xfe80, 0, 0, 0, 0, 0, 0, 1), 64), WANT, (IpAddress::V4(1, 1, 1, 1), 32)];
    let plan = address_plan(&observed, WANT.0, WANT.1);
    assert_eq!(
        plan,
        vec![
            AddrChange::Remove(IpAddress::V6(0xfe80, 0, 0, 0, 0, 0, 0, 1), 64),
            AddrChange::Remove(IpAddress::V4(1, 1, 1, 1), 32),
        ]
    );
    assert_eq!(apply(observed, &plan), vec![WANT]);
}

#[test]
fn ensure_ip_reads_ip_output() {
    let output = "4: wg0: <POINTOPOINT,NOARP,UP,LOWER_UP> mtu 1420 qdisc noqueue state UNKNOWN group default qlen 1000\n    link/none \n    inet 10.0.1.1/24 scope global wg0\n       valid_lft forever preferred_lft forever\n    inet6 fe80::1/64 scope link\n";
    let plan = ensure_ip(&config(), &servers(), output).unwrap();
    assert_eq!(
        plan,
        vec![
            AddrChange::Remove(IpAddress::V4(10, 0, 1, 1), 24),
            AddrChange::Remove(IpAddress::V6(0xfe80, 0, 0, 0, 0, 0, 0, 1), 64),
            AddrChange::Add(IpAddress::V4(10, 0, 1, 1), 16),
        ]
    );
}

#[test]
fn ensure_ip_on_correct_device() {
    let output = "    inet 10.0.1.1/16 scope global wg0\n";
    assert_eq!(ensure_ip(&config(), &servers(), output), Ok(vec![]));
}

#[test]
fn ensure_ip_on_empty_device() {
    assert_eq!(
        ensure_ip(&config(), &servers(), "4: wg0: <POINTOPOINT> mtu 1420\n"),
        Ok(vec![AddrChange::Add(IpAddress::V4(10, 0, 1, 1), 16)])
    );
}

#[test]
fn ensure_ip_malformed_address() {
    assert_eq!(ensure_ip(&config(), &servers(), "inet 10.0.1.300/24\n"), Err(MeshError::MalformedAddress));
    let entries = vec![("10.0.1.1".to_string(), "300".to_string())];
    assert_eq!(plan_from_entries(&config(), &servers(), &entries), Err(MeshError::MalformedAddress));
}

#[test]
fn ensure_ip_unregistered() {
    assert_eq!(ensure_ip(&config(), &vec![], "inet 10.0.1.1/16\n"), Err(MeshError::NotRegistered));
}

#[test]
fn plan_from_entries_exact() {
    let entries = vec![("10.0.1.1".to_string(), "16".to_string()), ("::1".to_string(), "128".to_string())];
    assert_eq!(
        plan_from_entries(&config(), &servers(), &entries),
        Ok(vec![AddrChange::Remove(IpAddress::V6(0, 0, 0, 0, 0, 0, 0, 1), 128)])
    );
}

fn run_link(exists: bool, create: Option<i32>, up: Option<i32>) -> (Vec<LinkStep>, LinkNext) {
    let mut steps = vec![];
    let mut step = LinkStep::Inspect;
    loop {
        steps.push(step);
        let code = match step {
            LinkStep::Inspect => Some(if exists { 0 } else { 1 }),
            LinkStep::Create => create,
            LinkStep::BringUp => up,
        };
        match make_interface_next(step, code) {
            LinkNext::Run(s) => step = s,
            other => return (steps, other),
        }
    }
}

#[test]
fn interface_created_when_absent() {
    assert_eq!(
        run_link(false, Some(0), Some(0)),
        (vec![LinkStep::Inspect, LinkStep::Create, LinkStep::BringUp], LinkNext::Done)
    );
}

#[test]
fn interface_up_twice_creates_once() {
    let first = run_link(false, Some(0), Some(0));
    assert_eq!(first.1, LinkNext::Done);
    let second = run_link(true, Some(0), Some(0));
    assert_eq!(second, (vec![LinkStep::Inspect], LinkNext::Done));
}

#[test]
fn interface_failures() {
    assert_eq!(
        run_link(false, Some(2), Some(0)),
        (vec![LinkStep::Inspect, LinkStep::Create], LinkNext::Failed(MeshError::Interface(Some(2))))
    );
    assert_eq!(run_link(false, Some(0), None).1, LinkNext::Failed(MeshError::Interface(None)));
}

#[test]
fn command_arguments() {
    let dev = "wg0".to_string();
    assert_eq!(ip_command_args(&LinkStep::Inspect.command(), &dev), vec!["link", "show", "wg0"]);
    assert_eq!(ip_command_args(&IpCommand::LinkAdd, &dev), vec!["link", "add", "dev", "wg0", "type", "wireguard"]);
    assert_eq!(ip_command_args(&IpCommand::LinkUp, &dev), vec!["link", "set", "up", "dev", "wg0"]);
    assert_eq!(ip_command_args(&IpCommand::LinkDelete, &dev), vec!["link", "delete", "wg0"]);
    assert_eq!(ip_command_args(&IpCommand::AddrShow, &dev), vec!["addr", "show", "wg0"]);
    assert_eq!(
        ip_command_args(&AddrChange::Remove(IpAddress::V4(10, 0, 1, 1), 24).command(), &dev),
        vec!["addr", "delete", "dev", "wg0", "10.0.1.1/24"]
    );
    assert_eq!(
        ip_command_args(&AddrChange::Add(IpAddress::V6(0xfd00, 0, 0, 0, 0, 0, 0, 1), 64).command(), &dev),
        vec!["addr", "add", "dev", "wg0", "fd00::1/64"]
    );
    assert_eq!(setconf_args(&dev, &"/tmp/x".to_string()), vec!["setconf", "wg0", "/tmp/x"]);
}

#[test]
fn exit_codes() {
    assert_eq!(command_outcome(Some(0)), Ok(()));
    assert_eq!(command_outcome(Some(2)), Err(MeshError::Interface(Some(2))));
    assert_eq!(command_outcome(None), Err(MeshError::Interface(None)));
    assert_eq!(setconf_outcome(Some(0)), Ok(()));
    assert_eq!(setconf_outcome(Some(1)), Err(MeshError::Apply(Some(1))));
    assert_eq!(setconf_outcome(None), Err(MeshError::Apply(None)));
}

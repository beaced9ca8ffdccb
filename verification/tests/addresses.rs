use buzzoperator::configuration::ServiceConfig;
use buzzoperator::connect_addr::{ConnectAddr, IpAddr};
use buzzoperator::ports::{unix_addresses, PortSearch};

/// Plans the addresses of `count` units of `name` from `start`; every
/// probed port counts as available unless `busy` lists it.
fn plan_addresses(name: &str, start: &ConnectAddr, count: u16, busy: &[u16]) -> Vec<ConnectAddr> {
    match start {
        ConnectAddr::Unix(dir) => unix_addresses(name, count, dir, &Vec::new()),
        ConnectAddr::Tcp { addr, port } => {
            let mut search = PortSearch::new(*addr, *port, count);
            while let Some(probe) = search.next_probe() {
                search.report(!busy.contains(&probe));
            }
            search.into_addresses()
        }
    }
}

fn assert_unix_under(addresses: Vec<ConnectAddr>, count: usize, dir: &str) {
    assert_eq!(addresses.len(), count);
    for address in addresses {
        match address {
            ConnectAddr::Unix(path) => {
                assert_eq!(std::path::Path::new(&path).starts_with(dir), true);
            }
            _ => panic!("Expected Unix address, but got TCP address"),
        }
    }
}

fn assert_tcp_from(addresses: Vec<ConnectAddr>, count: usize, first_port: u16) {
    assert_eq!(addresses.len(), count);
    let mut port = first_port;
    for address in addresses {
        match address {
            ConnectAddr::Tcp { addr, port: p } => {
                assert_eq!(addr, IpAddr::V4(127, 0, 0, 1));
                assert_eq!(p, port);
                port += 1;
            }
            _ => panic!("Expected TCP address, but got Unix address"),
        }
    }
}

#[test]
fn service_test_figure_out_bunch_of_addresses_unix() {
    let start_from = ConnectAddr::Unix("test_app/sockets".to_string());
    let count = 3;
    let addresses = plan_addresses("test", &start_from, count, &[]);
    assert_unix_under(addresses, count as usize, "test_app/sockets");
}

#[test]
fn service_test_figure_out_bunch_of_addresses_tcp() {
    let start_from = ConnectAddr::Tcp { addr: IpAddr::V4(127, 0, 0, 1), port: 8000 };
    let count = 3;
    let addresses = plan_addresses("test", &start_from, count, &[]);
    assert_tcp_from(addresses, count as usize, 8000);
}

#[test]
fn service_bunch_test_figure_out_bunch_of_addresses_unix() {
    let config = ServiceConfig::create_test_config();
    let addresses = plan_addresses(&config.name, &config.connect_addr, config.instances_count, &[]);
    assert_unix_under(addresses, config.instances_count as usize, "test_app/sockets");
}

#[test]
fn service_bunch_test_figure_out_bunch_of_addresses_tcp() {
    let mut config = ServiceConfig::create_test_config();
    config.connect_addr = ConnectAddr::Tcp { addr: IpAddr::V4(127, 0, 0, 1), port: 8000 };
    let addresses = plan_addresses(&config.name, &config.connect_addr, config.instances_count, &[]);
    assert_tcp_from(addresses, config.instances_count as usize, 8000);
}

#[test]
fn test_find_available_addresses_unix() {
    let config = ServiceConfig::create_test_config();
    let addresses = plan_addresses(&config.name, &config.connect_addr, config.instances_count, &[]);
    assert_unix_under(addresses, config.instances_count as usize, "test_app/sockets");
}

#[test]
fn test_find_available_addresses_tcp() {
    let mut config = ServiceConfig::create_test_config();
    config.connect_addr = ConnectAddr::Tcp { addr: IpAddr::V4(127, 0, 0, 1), port: 8000 };
    let addresses = plan_addresses(&config.name, &config.connect_addr, config.instances_count, &[]);
    assert_tcp_from(addresses, config.instances_count as usize, 8000);
}

#[test]
fn busy_ports_are_skipped() {
    let start = ConnectAddr::Tcp { addr: IpAddr::V4(10, 0, 0, 2), port: 9000 };
    let addresses = plan_addresses("web", &start, 3, &[9000, 9002, 9003]);
    let ports: Vec<u16> = addresses
        .iter()
        .map(|a| match a {
            ConnectAddr::Tcp { port, .. } => *port,
            _ => panic!("Expected TCP address, but got Unix address"),
        })
        .collect();
    assert_eq!(ports, vec![9001, 9004, 9005]);
}

#[test]
fn port_search_steps() {
    let mut search = PortSearch::new(IpAddr::V4(127, 0, 0, 1), 8000, 2);
    assert_eq!(search.next_probe(), Some(8000));
    search.report(false);
    assert_eq!(search.next_probe(), Some(8001));
    search.report(true);
    assert_eq!(search.next_probe(), Some(8002));
    search.report(true);
    assert_eq!(search.next_probe(), None);
    let found = search.into_addresses();
    assert_eq!(found.len(), 2);
    assert_eq!(found[0].to_display_string(), "127.0.0.1:8001");
    assert_eq!(found[1].to_display_string(), "127.0.0.1:8002");
}

#[test]
fn no_ports_wanted_probes_nothing() {
    let search = PortSearch::new(IpAddr::V4(127, 0, 0, 1), 8000, 0);
    assert_eq!(search.next_probe(), None);
    assert_eq!(search.into_addresses().len(), 0);
}

#[test]
fn unix_addresses_are_socket_paths() {
    let entries = vec!["api-socket-2".to_string()];
    let addresses = unix_addresses("api", 2, "/run/api", &entries);
    let texts: Vec<String> = addresses.iter().map(|a| a.to_display_string()).collect();
    assert_eq!(
        texts,
        vec!["/run/api/api-socket-1".to_string(), "/run/api/api-socket-3".to_string()]
    );
}

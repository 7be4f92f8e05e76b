use wol::{resolve_interface, Interface, WolError};

fn iface(name: &str, up: bool, loopback: bool, ip_count: usize) -> Interface {
    Interface { name: name.to_string(), mac: Some([2, 0, 0, 0, 0, 1]), up, loopback, ip_count }
}

fn platform() -> Vec<Interface> {
    vec![
        iface("lo", true, true, 2),
        iface("eth1", false, false, 1),
        iface("docker0", true, false, 0),
        iface("eth0", true, false, 1),
        iface("wlan0", true, false, 3),
    ]
}

#[test]
fn unknown_name_is_not_found_even_with_a_default() {
    let ifaces = platform();
    assert_eq!(resolve_interface(&ifaces, Some(&"eth9".to_string())), Err(WolError::InterfaceNotFound));
    assert_eq!(resolve_interface(&ifaces, Some(&"ETH0".to_string())), Err(WolError::InterfaceNotFound));
    assert_eq!(resolve_interface(&Vec::new(), Some(&"eth0".to_string())), Err(WolError::InterfaceNotFound));
}

#[test]
fn named_interface_is_taken_as_it_is() {
    let ifaces = platform();
    assert_eq!(resolve_interface(&ifaces, Some(&"eth1".to_string())), Ok(1));
    assert_eq!(resolve_interface(&ifaces, Some(&"lo".to_string())), Ok(0));
    assert_eq!(resolve_interface(&ifaces, Some(&"wlan0".to_string())), Ok(4));
}

#[test]
fn first_name_match_wins() {
    let ifaces = vec![iface("eth0", false, false, 0), iface("eth0", true, false, 1)];
    assert_eq!(resolve_interface(&ifaces, Some(&"eth0".to_string())), Ok(0));
}

#[test]
fn default_is_first_up_non_loopback_with_ip() {
    assert_eq!(resolve_interface(&platform(), None), Ok(3));
}

#[test]
fn no_default_interface() {
    let ifaces = vec![iface("lo", true, true, 1), iface("eth0", false, false, 1), iface("eth1", true, false, 0)];
    assert_eq!(resolve_interface(&ifaces, None), Err(WolError::NoDefaultInterface));
    assert_eq!(resolve_interface(&Vec::new(), None), Err(WolError::NoDefaultInterface));
}

use portal::types::sockets::{IntoSockets, IpAddress, SocketAddress};

fn ips() -> Vec<IpAddress> {
    let mut v6 = [0u8; 16];
    v6[15] = 1;
    vec![IpAddress::V4([127, 0, 0, 1]), IpAddress::V6(v6), IpAddress::V4([10, 0, 0, 1])]
}

#[test]
fn sockets_from_ips_and_port() {
    let all = (ips(), 53).into_sockets();
    assert_eq!(all.len(), 3);
    assert!(all.iter().all(|s| s.port == 53));
    assert_eq!(all[0].ip, IpAddress::V4([127, 0, 0, 1]));
    assert!(all[1].is_ipv6());
}

#[test]
fn sockets_by_version() {
    let v4 = (ips(), 53).into_ipv4_sockets();
    assert_eq!(v4.len(), 2);
    assert!(v4.iter().all(|s| s.is_ipv4()));
    assert_eq!(v4[1].ip, IpAddress::V4([10, 0, 0, 1]));
    let v6 = (ips(), 53).into_ipv6_sockets();
    assert_eq!(v6.len(), 1);
    assert!(v6[0].is_ipv6());
}

#[test]
fn sockets_filtered_by_flags() {
    assert_eq!((ips(), 53).into_filtered_sockets(false, false).len(), 3);
    assert_eq!((ips(), 53).into_filtered_sockets(false, true).len(), 1);
    assert_eq!((ips(), 53).into_filtered_sockets(true, false).len(), 2);
    assert_eq!((ips(), 53).into_filtered_sockets(true, true).len(), 2);
}

#[test]
fn socket_address_into_sockets() {
    let a = SocketAddress { ip: IpAddress::V4([1, 2, 3, 4]), port: 80 };
    assert_eq!(a.into_sockets(), vec![a]);
    assert_eq!(a.into_ipv4_sockets(), vec![a]);
    assert!(a.into_ipv6_sockets().is_empty());
    assert_eq!(a.into_filtered_sockets(false, true), Vec::<SocketAddress>::new());
}

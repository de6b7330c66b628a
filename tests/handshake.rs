use relay_proxy::address::{AddressType, ProxyInfo};
use relay_proxy::error::HandshakeError;
use relay_proxy::socks5::{Sock5ClientConnector, Socks5Server};

#[test]
fn greeting_no_auth_is_accepted() {
    let (n, reply) = Socks5Server::accept_greeting(&[5, 1, 0]).unwrap();
    assert_eq!(n, 3);
    assert_eq!(reply, vec![5, 0]);
    let (n, _) = Socks5Server::accept_greeting(&[5, 2, 0, 2, 0xaa]).unwrap();
    assert_eq!(n, 4);
}

#[test]
fn greeting_of_version_four_is_refused() {
    assert_eq!(Socks5Server::accept_greeting(&[4, 1, 0]).unwrap_err(), HandshakeError::UnsupportedVersion(4));
    assert_eq!(Socks5Server::method_size(&[4, 1]), Err(HandshakeError::UnsupportedVersion(4)));
    assert_eq!(Socks5Server::method_size(&[5, 3]), Ok(3));
    assert_eq!(Socks5Server::accept_greeting(&[5, 2, 0]).unwrap_err(), HandshakeError::Truncated);
}

#[test]
fn connect_request_is_decoded() {
    let req = [5u8, 1, 0, 1, 127, 0, 0, 1, 0x23, 0x29, 0xff];
    let (info, n) = Socks5Server::read_request(&req).unwrap();
    assert_eq!(info.address_type, AddressType::IPv4);
    assert_eq!(info.address, vec![127, 0, 0, 1]);
    assert_eq!(info.port, 9001);
    assert_eq!(n, 10);
}

#[test]
fn bind_and_udp_are_refused() {
    assert_eq!(Socks5Server::read_request(&[5, 2, 0, 1, 0, 0, 0, 0, 0, 0]).unwrap_err(), HandshakeError::UnsupportedCommand(2));
    assert_eq!(Socks5Server::read_request(&[5, 3, 0, 1, 0, 0, 0, 0, 0, 0]).unwrap_err(), HandshakeError::UnsupportedCommand(3));
    assert_eq!(Socks5Server::read_request(&[5, 1, 0, 2, 0, 0, 0, 0, 0, 0]).unwrap_err(), HandshakeError::UnsupportedAddressType(2));
    assert_eq!(Socks5Server::read_request(&[5, 1, 1, 1, 0, 0, 0, 0, 0, 0]).unwrap_err(), HandshakeError::BadReserved(1));
}

#[test]
fn success_reply_carries_port() {
    assert_eq!(Socks5Server::write_success_connect(1080), vec![5, 0, 0, 1, 0, 0, 0, 0, 0x04, 0x38]);
}

#[test]
fn client_messages() {
    assert_eq!(Sock5ClientConnector::greeting(), vec![5, 1, 0]);
    let info = ProxyInfo { address_type: AddressType::Domain, address: b"ab".to_vec(), port: 80 };
    assert_eq!(Sock5ClientConnector::connect_request(&info), vec![5, 1, 0, 3, 2, b'a', b'b', 0, 80]);
}

#[test]
fn upstream_refusing_no_auth_fails() {
    assert_eq!(Sock5ClientConnector::check_method_reply(&[5, 0xFF]), Err(HandshakeError::MethodRejected));
    assert_eq!(Sock5ClientConnector::check_method_reply(&[5, 0]), Ok(()));
    assert_eq!(Sock5ClientConnector::check_method_reply(&[5]), Err(HandshakeError::Truncated));
}

#[test]
fn connect_reply_lengths() {
    assert_eq!(Sock5ClientConnector::reply_len(&[5, 0, 0, 1, 0, 0, 0, 0, 0, 0]), Ok(10));
    assert_eq!(Sock5ClientConnector::reply_len(&[5, 0, 0, 4]), Err(HandshakeError::Truncated));
    assert_eq!(Sock5ClientConnector::reply_len(&[5, 0, 0, 3, 2, b'a', b'b', 0, 1]), Ok(9));
    assert_eq!(Sock5ClientConnector::reply_len(&[5, 5, 0, 1]), Err(HandshakeError::ConnectRefused(5)));
    assert_eq!(Sock5ClientConnector::reply_len(&[5, 0, 0, 9]), Err(HandshakeError::UnsupportedAddressType(9)));
}

use rumble::client::RumbleClient;
use rumble::config::{ClientConfig, ConnectionConfig};
use rumble::errors::RumbleError;
use rumble::net::Lease;
use rumble::proto::{ClientHello, ServerHello, REJECT_BAD_CREDENTIALS};

fn conn_config() -> ConnectionConfig {
    ConnectionConfig { mtu: 1400, send_buffer_size: 262144, recv_buffer_size: 262144, timeout: 10 }
}

#[test]
fn client_hello_round_trips() {
    let hello = ClientHello { username: b"alice".to_vec(), password: b"hunter2".to_vec() };
    let bytes = hello.encode().unwrap();
    assert_eq!(bytes.len(), 2 + 5 + 7);
    assert_eq!(bytes[0], 5);
    let back = ClientHello::decode(&bytes).unwrap();
    assert_eq!(back.username, b"alice".to_vec());
    assert_eq!(back.password, b"hunter2".to_vec());
}

#[test]
fn oversized_credentials_are_rejected_before_sending() {
    let hello = ClientHello { username: vec![b'a'; 100], password: vec![b'b'; 100] };
    assert_eq!(hello.encode().unwrap_err(), RumbleError::ConfigError);
}

#[test]
fn truncated_client_hello_does_not_decode() {
    assert!(ClientHello::decode(&vec![]).is_none());
    assert!(ClientHello::decode(&vec![5, b'a']).is_none());
    // trailing garbage is refused too
    let mut bytes = ClientHello { username: b"a".to_vec(), password: b"b".to_vec() }
        .encode()
        .unwrap();
    bytes.push(0);
    assert!(ClientHello::decode(&bytes).is_none());
}

#[test]
fn server_hello_accepted_round_trips() {
    let lease = Lease { addr: 0x0a080002, prefix_len: 29, v4: true };
    let msg = ServerHello::Accepted { address: lease };
    let bytes = msg.encode();
    assert_eq!(bytes.len(), 19);
    assert_eq!(ServerHello::decode(&bytes), Some(msg));
}

#[test]
fn server_hello_rejected_round_trips() {
    let msg = ServerHello::Rejected { code: REJECT_BAD_CREDENTIALS };
    let bytes = msg.encode();
    assert_eq!(bytes, vec![2, 1]);
    assert_eq!(ServerHello::decode(&bytes), Some(msg));
}

#[test]
fn unknown_server_hello_bytes_do_not_decode() {
    assert_eq!(ServerHello::decode(&vec![]), None);
    assert_eq!(ServerHello::decode(&vec![9, 9]), None);
    assert_eq!(ServerHello::decode(&vec![1, 0, 64]), None);
}

#[test]
fn client_applies_accepted_address() {
    let lease = Lease { addr: 0x0a080002, prefix_len: 29, v4: true };
    let bytes = ServerHello::Accepted { address: lease }.encode();
    assert_eq!(RumbleClient::handle_server_hello(&bytes), Ok(lease));
}

#[test]
fn client_treats_rejection_as_fatal() {
    let bytes = ServerHello::Rejected { code: REJECT_BAD_CREDENTIALS }.encode();
    assert_eq!(
        RumbleClient::handle_server_hello(&bytes),
        Err(RumbleError::AuthRejected)
    );
    assert_eq!(
        RumbleClient::handle_server_hello(&vec![7, 7, 7]),
        Err(RumbleError::QuicError)
    );
}

#[test]
fn client_builds_hello_from_its_configuration() {
    let client = RumbleClient::new(ClientConfig {
        connection_string: b"vpn.example.org:8443".to_vec(),
        username: b"alice".to_vec(),
        password: b"hunter2".to_vec(),
        connection: conn_config(),
    });
    let bytes = client.build_client_hello().unwrap();
    let back = ClientHello::decode(&bytes).unwrap();
    assert_eq!(back.username, b"alice".to_vec());
    assert_eq!(back.password, b"hunter2".to_vec());
    assert_eq!(client.server_host(), b"vpn.example.org".to_vec());
}

#[test]
fn host_without_separator_is_the_whole_string() {
    let client = RumbleClient::new(ClientConfig {
        connection_string: b"localhost".to_vec(),
        username: b"u".to_vec(),
        password: b"p".to_vec(),
        connection: conn_config(),
    });
    assert_eq!(client.server_host(), b"localhost".to_vec());
}

#[test]
fn ipv6_server_hello_round_trips() {
    let lease = Lease { addr: (0xfd00u128 << 112) + 2, prefix_len: 64, v4: false };
    let msg = ServerHello::Accepted { address: lease };
    assert_eq!(ServerHello::decode(&msg.encode()), Some(msg));
}

#[test]
fn largest_client_hello_fits_the_buffer() {
    let hello = ClientHello { username: vec![b'u'; 63], password: vec![b'p'; 63] };
    let bytes = hello.encode().unwrap();
    assert_eq!(bytes.len(), 128);
    let back = ClientHello::decode(&bytes).unwrap();
    assert_eq!(back.username.len(), 63);
    assert_eq!(back.password.len(), 63);
    let too_big = ClientHello { username: vec![b'u'; 63], password: vec![b'p'; 64] };
    assert!(too_big.encode().is_err());
}

#[test]
fn empty_credentials_still_round_trip() {
    let hello = ClientHello { username: vec![], password: vec![] };
    let bytes = hello.encode().unwrap();
    assert_eq!(bytes, vec![0, 0]);
    let back = ClientHello::decode(&bytes).unwrap();
    assert!(back.username.is_empty());
    assert!(back.password.is_empty());
}

use iface_proxy::error::ProxyError;
use iface_proxy::socks5::{connect_reply, step, Credentials, Next, Phase};
use iface_proxy::target::{Host, Target};

/// Feeds `stream` to the handshake as the program would: exactly as many
/// bytes as each phase asks for. Returns all replies and the last step's
/// decision, or `None` if the stream ends in the middle.
fn handshake(stream: &[u8], creds: &Credentials) -> (Vec<u8>, Option<Next>) {
    let mut replies = Vec::new();
    let mut phase = Phase::Greeting;
    let mut at = 0;
    loop {
        let n = phase.need();
        if stream.len() - at < n {
            return (replies, None);
        }
        let s = step(phase, &stream[at..at + n], creds);
        at += n;
        replies.extend_from_slice(&s.reply);
        match s.next {
            Next::Read(p) => phase = p,
            other => return (replies, Some(other)),
        }
    }
}

#[test]
fn connect_to_ipv4_without_auth() {
    let stream = [0x05, 0x01, 0x00, 0x05, 0x01, 0x00, 0x01, 0x7F, 0x00, 0x00, 0x01, 0x1F, 0x90];
    let (replies, next) = handshake(&stream, &Credentials::none());
    assert_eq!(replies, vec![0x05, 0x00]);
    assert_eq!(
        next,
        Some(Next::Connect(Target { host: Host::V4([127, 0, 0, 1]), port: 8080 }))
    );
    assert_eq!(connect_reply(true), vec![0x05, 0x00, 0x00, 0x01, 0, 0, 0, 0, 0, 0]);
}

#[test]
fn connect_with_user_and_password() {
    let creds = Credentials::new(b"alice".to_vec(), b"s3cret".to_vec());
    let mut stream = vec![0x05, 0x01, 0x02, 0x01, 0x05];
    stream.extend_from_slice(b"alice");
    stream.push(0x06);
    stream.extend_from_slice(b"s3cret");
    let (replies, next) = handshake(&stream, &creds);
    assert_eq!(replies, vec![0x05, 0x02, 0x01, 0x00]);
    assert_eq!(next, None);
    stream.extend_from_slice(&[0x05, 0x01, 0x00, 0x03, 0x0C]);
    stream.extend_from_slice(b"example.test");
    stream.extend_from_slice(&[0x01, 0xBB]);
    let (replies, next) = handshake(&stream, &creds);
    assert_eq!(replies, vec![0x05, 0x02, 0x01, 0x00]);
    assert_eq!(
        next,
        Some(Next::Connect(Target { host: Host::Name(b"example.test".to_vec()), port: 443 }))
    );
}

#[test]
fn wrong_password_is_refused() {
    let creds = Credentials::new(b"alice".to_vec(), b"s3cret".to_vec());
    let mut stream = vec![0x05, 0x02, 0x00, 0x02, 0x01, 0x05];
    stream.extend_from_slice(b"alice");
    stream.push(0x06);
    stream.extend_from_slice(b"s3creT");
    let (replies, next) = handshake(&stream, &creds);
    assert_eq!(replies, vec![0x05, 0x02, 0x01, 0x01]);
    assert_eq!(next, Some(Next::Close(ProxyError::InvalidCredentials)));
}

#[test]
fn wrong_user_is_refused() {
    let creds = Credentials::new(b"alice".to_vec(), b"s3cret".to_vec());
    let mut stream = vec![0x05, 0x01, 0x02, 0x01, 0x03];
    stream.extend_from_slice(b"bob");
    stream.push(0x06);
    stream.extend_from_slice(b"s3cret");
    let (replies, next) = handshake(&stream, &creds);
    assert_eq!(replies, vec![0x05, 0x02, 0x01, 0x01]);
    assert_eq!(next, Some(Next::Close(ProxyError::InvalidCredentials)));
}

#[test]
fn empty_user_and_password_are_compared_too() {
    let creds = Credentials::new(Vec::new(), Vec::new());
    let stream = [0x05, 0x01, 0x02, 0x01, 0x00, 0x00];
    let (replies, next) = handshake(&stream, &creds);
    assert_eq!(replies, vec![0x05, 0x02, 0x01, 0x00]);
    assert_eq!(next, None);
}

#[test]
fn half_configured_credentials_admit_nobody() {
    let creds = Credentials { user: Some(b"alice".to_vec()), pass: None };
    assert!(creds.is_required());
    let mut stream = vec![0x05, 0x01, 0x02, 0x01, 0x05];
    stream.extend_from_slice(b"alice");
    stream.push(0x00);
    let (replies, next) = handshake(&stream, &creds);
    assert_eq!(replies, vec![0x05, 0x02, 0x01, 0x01]);
    assert_eq!(next, Some(Next::Close(ProxyError::InvalidCredentials)));
}

#[test]
fn client_without_auth_method_is_refused() {
    let creds = Credentials::new(b"alice".to_vec(), b"s3cret".to_vec());
    let (replies, next) = handshake(&[0x05, 0x01, 0x00], &creds);
    assert_eq!(replies, vec![0x05, 0xFF]);
    assert_eq!(next, Some(Next::Close(ProxyError::AuthMethodNotOffered)));
}

#[test]
fn client_without_any_method_is_refused_when_auth_is_required() {
    let creds = Credentials::new(b"alice".to_vec(), b"s3cret".to_vec());
    let (replies, next) = handshake(&[0x05, 0x00], &creds);
    assert_eq!(replies, vec![0x05, 0xFF]);
    assert_eq!(next, Some(Next::Close(ProxyError::AuthMethodNotOffered)));
}

#[test]
fn no_auth_is_selected_whatever_the_client_offers() {
    let (replies, next) = handshake(&[0x05, 0x02, 0x02, 0x01], &Credentials::none());
    assert_eq!(replies, vec![0x05, 0x00]);
    assert_eq!(next, None);
    let (replies, _) = handshake(&[0x05, 0x00], &Credentials::none());
    assert_eq!(replies, vec![0x05, 0x00]);
}

#[test]
fn greeting_with_wrong_version_is_refused() {
    let (replies, next) = handshake(&[0x04, 0x01, 0x00], &Credentials::none());
    assert!(replies.is_empty());
    assert_eq!(next, Some(Next::Close(ProxyError::InvalidGreetingVersion)));
}

#[test]
fn subnegotiation_with_wrong_version_is_refused() {
    let creds = Credentials::new(b"a".to_vec(), b"b".to_vec());
    let (replies, next) = handshake(&[0x05, 0x01, 0x02, 0x02, 0x01], &creds);
    assert_eq!(replies, vec![0x05, 0x02]);
    assert_eq!(next, Some(Next::Close(ProxyError::InvalidAuthVersion)));
}

#[test]
fn request_with_wrong_version_is_refused() {
    let (replies, next) =
        handshake(&[0x05, 0x01, 0x00, 0x04, 0x01, 0x00, 0x01], &Credentials::none());
    assert_eq!(replies, vec![0x05, 0x00]);
    assert_eq!(next, Some(Next::Close(ProxyError::InvalidRequestVersion)));
}

#[test]
fn unknown_address_type_is_refused() {
    let (replies, next) =
        handshake(&[0x05, 0x01, 0x00, 0x05, 0x01, 0x00, 0x02], &Credentials::none());
    assert_eq!(replies, vec![0x05, 0x00]);
    assert_eq!(next, Some(Next::Close(ProxyError::UnsupportedAtyp)));
}

#[test]
fn udp_associate_is_refused_without_reply() {
    let stream = [0x05, 0x01, 0x00, 0x05, 0x03, 0x00, 0x01, 0, 0, 0, 0, 0, 0];
    let (replies, next) = handshake(&stream, &Credentials::none());
    assert_eq!(replies, vec![0x05, 0x00]);
    assert_eq!(next, Some(Next::Close(ProxyError::UdpAssocNotSupported)));
    assert!(connect_reply(false).is_empty());
}

#[test]
fn bind_command_is_refused() {
    let stream = [0x05, 0x01, 0x00, 0x05, 0x02, 0x00, 0x01, 1, 2, 3, 4, 0, 80];
    let (replies, next) = handshake(&stream, &Credentials::none());
    assert_eq!(replies, vec![0x05, 0x00]);
    assert_eq!(next, Some(Next::Close(ProxyError::UnsupportedCmd)));
}

#[test]
fn address_type_is_checked_before_the_command() {
    let (_, next) = handshake(&[0x05, 0x01, 0x00, 0x05, 0x03, 0x00, 0x09], &Credentials::none());
    assert_eq!(next, Some(Next::Close(ProxyError::UnsupportedAtyp)));
}

#[test]
fn connect_to_ipv6() {
    let mut stream = vec![0x05, 0x01, 0x00, 0x05, 0x01, 0x00, 0x04];
    let addr: [u8; 16] = [0x20, 0x01, 0x0d, 0xb8, 0, 0, 0, 0, 0, 0, 0, 0, 0, 0, 0, 1];
    stream.extend_from_slice(&addr);
    stream.extend_from_slice(&[0xFF, 0xFF]);
    let (_, next) = handshake(&stream, &Credentials::none());
    assert_eq!(next, Some(Next::Connect(Target { host: Host::V6(addr), port: 65535 })));
}

#[test]
fn connect_to_empty_domain() {
    let stream = [0x05, 0x01, 0x00, 0x05, 0x01, 0x00, 0x03, 0x00, 0x00, 0x50];
    let (_, next) = handshake(&stream, &Credentials::none());
    assert_eq!(next, Some(Next::Connect(Target { host: Host::Name(Vec::new()), port: 80 })));
}

#[test]
fn phases_ask_for_what_the_protocol_lays_down() {
    assert_eq!(Phase::Greeting.need(), 2);
    assert_eq!(Phase::Methods { count: 7 }.need(), 7);
    assert_eq!(Phase::AuthVersion.need(), 1);
    assert_eq!(Phase::UserLength.need(), 1);
    assert_eq!(Phase::User { length: 255 }.need(), 255);
    assert_eq!(Phase::PassLength { user_ok: true }.need(), 1);
    assert_eq!(Phase::Pass { user_ok: true, length: 0 }.need(), 0);
    assert_eq!(Phase::Request.need(), 4);
    assert_eq!(Phase::AddressV4 { command: 1 }.need(), 4);
    assert_eq!(Phase::AddressV6 { command: 1 }.need(), 16);
    assert_eq!(Phase::NameLength { command: 1 }.need(), 1);
    assert_eq!(Phase::Name { command: 1, length: 12 }.need(), 12);
    assert_eq!(Phase::Port { command: 1, host: Host::Name(Vec::new()) }.need(), 2);
}

#[test]
fn success_reply_is_ten_bytes() {
    let reply = connect_reply(true);
    assert_eq!(reply.len(), 10);
    assert_eq!(reply, vec![5, 0, 0, 1, 0, 0, 0, 0, 0, 0]);
}

use quantum_vpn::connection::{
    establish_session, on_binary, on_close, on_text, AuthRequest, ConnectionState,
    HandshakeRequest, StatsRequest, TextAction, TextMessage, VpnPacket,
};
use quantum_vpn::crypto::{CryptoSession, KeyExchange};
use quantum_vpn::proxy::HttpProxyRequest;
use quantum_vpn::session::SessionManager;

fn empty() -> TextMessage {
    TextMessage { auth: None, stats: None, proxy: None, tunnel: None, handshake: None }
}

fn proxy_request(kind: &str, body: Option<Vec<u8>>) -> HttpProxyRequest {
    HttpProxyRequest {
        message_type: kind.to_string(),
        id: "1".to_string(),
        method: "GET".to_string(),
        url: "http://example.com".to_string(),
        headers: vec![],
        body,
    }
}

fn packet(kind: &str, data: Vec<u8>) -> VpnPacket {
    VpnPacket { packet_type: kind.to_string(), data, destination: None, protocol: None }
}

#[test]
fn login_is_confirmed_with_current_counters() {
    let mut st = ConnectionState { session_id: None, bytes_rx: 5, bytes_tx: 6 };
    let mut m = empty();
    m.auth = Some(AuthRequest { message_type: "auth".to_string(), username: "u".to_string() });
    m.stats = Some(StatsRequest { message_type: "auth".to_string() });
    assert_eq!(on_text(&mut st, m), TextAction::AuthSuccess { bytes_rx: 5, bytes_tx: 6 });
    assert_eq!(st, ConnectionState { session_id: None, bytes_rx: 5, bytes_tx: 6 });
}

#[test]
fn stats_request_reports_counters() {
    let mut st = ConnectionState::new();
    let mut m = empty();
    m.auth = Some(AuthRequest { message_type: "get_stats".to_string(), username: "u".to_string() });
    m.stats = Some(StatsRequest { message_type: "get_stats".to_string() });
    assert_eq!(on_text(&mut st, m), TextAction::StatsResponse { bytes_rx: 0, bytes_tx: 0 });
}

#[test]
fn proxy_request_counts_its_body() {
    let mut st = ConnectionState::new();
    let mut m = empty();
    m.stats = Some(StatsRequest { message_type: "http_proxy_request".to_string() });
    m.proxy = Some(proxy_request("http_proxy_request", Some(vec![1, 2, 3])));
    assert_eq!(
        on_text(&mut st, m),
        TextAction::ProxyRequest(proxy_request("http_proxy_request", Some(vec![1, 2, 3])))
    );
    assert_eq!(st.bytes_rx, 3);
    assert_eq!(st.bytes_tx, 0);
    let mut m = empty();
    m.proxy = Some(proxy_request("http_proxy_request", None));
    let _ = on_text(&mut st, m);
    assert_eq!(st.bytes_rx, 3);
}

#[test]
fn tunnel_data_is_echoed_and_counted_both_ways() {
    let mut st = ConnectionState::new();
    let mut m = empty();
    m.proxy = Some(proxy_request("other", Some(vec![9; 10])));
    m.tunnel = Some(packet("tunnel_data", vec![1, 2, 3, 4]));
    assert_eq!(on_text(&mut st, m), TextAction::TunnelResponse(vec![1, 2, 3, 4]));
    assert_eq!(st.bytes_rx, 4);
    assert_eq!(st.bytes_tx, 4);
}

#[test]
fn handshake_and_unknown_frames() {
    let mut st = ConnectionState::new();
    let hs = HandshakeRequest { client_public_key: vec![1], signature: vec![2] };
    let mut m = empty();
    m.tunnel = Some(packet("other", vec![1]));
    m.handshake = Some(HandshakeRequest { client_public_key: vec![1], signature: vec![2] });
    assert_eq!(on_text(&mut st, m), TextAction::Handshake(hs));
    let mut m = empty();
    m.auth = Some(AuthRequest { message_type: "hello".to_string(), username: "u".to_string() });
    assert_eq!(on_text(&mut st, m), TextAction::Ignore);
    assert_eq!(st, ConnectionState::new());
}

#[test]
fn handshake_with_a_valid_client_signature_opens_no_session() {
    let server = KeyExchange::new();
    let client = KeyExchange::new();
    let (_, client_pk) = client.get_public_keys();
    let signature = client.sign_data(&client_pk);
    assert_eq!(server.verify_client_signature(&client_pk, &signature, &client_pk), Ok(()));
    let mut manager: SessionManager<u8> = SessionManager::new();
    let mut st = ConnectionState::new();
    let hs = HandshakeRequest { client_public_key: client_pk, signature };
    establish_session(&server, &mut manager, &mut st, &"1.2.3.4:5".to_string(), 1, &hs);
    assert_eq!(st, ConnectionState::new());
    assert!(manager.list_sessions().is_empty());
}

#[test]
fn binary_frame_takes_the_session_out_and_close_drops_it() {
    let mut manager: SessionManager<u8> = SessionManager::new();
    let id = manager.create_session("ip".to_string(), vec![1u8; 32], 0).unwrap();
    let other = manager.create_session("ip2".to_string(), vec![1u8; 32], 0).unwrap();
    let st = ConnectionState { session_id: Some(id.clone()), bytes_rx: 0, bytes_tx: 0 };
    let decrypted = on_binary(&st, &mut manager, &[1, 2, 3]);
    assert!(matches!(decrypted, Some(Err(_))));
    assert!(manager.get_session(&id).is_none());
    assert_eq!(manager.list_sessions().len(), 1);
    let st2 = ConnectionState { session_id: Some(other.clone()), bytes_rx: 0, bytes_tx: 0 };
    on_close(&st2, &mut manager);
    assert!(manager.list_sessions().is_empty());
    let none = ConnectionState::new();
    let kept = manager.create_session("ip3".to_string(), vec![1u8; 32], 0).unwrap();
    assert_eq!(on_binary(&none, &mut manager, &[1]), None);
    on_close(&none, &mut manager);
    assert_eq!(manager.list_sessions()[0].id, kept);
}

#[test]
fn binary_frame_is_decrypted_with_the_session_key() {
    let mut manager: SessionManager<u8> = SessionManager::new();
    let id = manager.create_session("ip".to_string(), vec![5u8; 32], 0).unwrap();
    let mut client = CryptoSession::new(vec![5u8; 32]).unwrap();
    let frame = client.encrypt(b"tunnelled").unwrap();
    let st = ConnectionState { session_id: Some(id), bytes_rx: 0, bytes_tx: 0 };
    assert_eq!(on_binary(&st, &mut manager, &frame), Some(Ok(b"tunnelled".to_vec())));
    assert_eq!(on_binary(&st, &mut manager, &frame), None);
}

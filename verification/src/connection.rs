//! The decisions of one client's WebSocket connection.
//!
//! The connection loop itself (reading frames, sending replies, spawning
//! timers) lives with the caller; each incoming frame is handed to one of the
//! functions here, which updates the connection's state and says what to do.
use crate::crypto::{nonce_for, CryptoError, KeyExchange};
use crate::primitives::aes256gcm_open;
use crate::proxy::HttpProxyRequest;
use crate::session::SessionManager;
use crate::text::text_equals;
use vstd::prelude::*;

verus! {

/// A text frame read as a login request (`type` and `username`).
#[derive(Debug, PartialEq, Eq)]
pub struct AuthRequest {
    pub message_type: String,
    pub username: String,
}

/// A text frame read as a statistics request (`type` only).
#[derive(Debug, PartialEq, Eq)]
pub struct StatsRequest {
    pub message_type: String,
}

/// A text frame read as tunnelled traffic.
#[derive(Debug, PartialEq, Eq)]
pub struct VpnPacket {
    pub packet_type: String,
    pub data: Vec<u8>,
    pub destination: Option<String>,
    pub protocol: Option<String>,
}

/// A text frame read as the client's half of the key exchange.
#[derive(Debug, PartialEq, Eq)]
pub struct HandshakeRequest {
    pub client_public_key: Vec<u8>,
    pub signature: Vec<u8>,
}

/// Every reading of one text frame: each field holds the frame read as that
/// kind of request, when the frame has the shape of one.
#[derive(Debug, PartialEq, Eq)]
pub struct TextMessage {
    pub auth: Option<AuthRequest>,
    pub stats: Option<StatsRequest>,
    pub proxy: Option<HttpProxyRequest>,
    pub tunnel: Option<VpnPacket>,
    pub handshake: Option<HandshakeRequest>,
}

/// What one connection remembers between frames.
#[derive(Debug, PartialEq, Eq)]
pub struct ConnectionState {
    pub session_id: Option<String>,
    pub bytes_rx: u64,
    pub bytes_tx: u64,
}

/// What to do about a text frame.
#[derive(Debug, PartialEq, Eq)]
pub enum TextAction {
    /// Confirm the login and start the periodic statistics, which report these
    /// counters.
    AuthSuccess { bytes_rx: u64, bytes_tx: u64 },
    /// Answer a statistics request with these counters.
    StatsResponse { bytes_rx: u64, bytes_tx: u64 },
    /// Make this request on the client's behalf and send the answer back.
    ProxyRequest(HttpProxyRequest),
    /// Echo this tunnelled data back.
    TunnelResponse(Vec<u8>),
    /// Run the key exchange with `establish_session`.
    Handshake(HandshakeRequest),
    /// Nothing to do.
    Ignore,
}

/// Which kind of request a text frame is taken for, by the first reading
/// that fits, in this order.
#[derive(Debug, Clone, Copy, PartialEq, Eq)]
pub enum TextRoute {
    Auth,
    Stats,
    Proxy,
    Tunnel,
    Handshake,
    Ignore,
}

pub open spec fn is_login(m: TextMessage) -> bool {
    match m.auth {
        Some(a) => a.message_type@ == "auth"@,
        None => false,
    }
}

pub open spec fn is_stats_request(m: TextMessage) -> bool {
    match m.stats {
        Some(s) => s.message_type@ == "get_stats"@,
        None => false,
    }
}

pub open spec fn is_proxy_request(m: TextMessage) -> bool {
    match m.proxy {
        Some(p) => p.message_type@ == "http_proxy_request"@,
        None => false,
    }
}

pub open spec fn is_tunnel_data(m: TextMessage) -> bool {
    match m.tunnel {
        Some(t) => t.packet_type@ == "tunnel_data"@,
        None => false,
    }
}

/// The kind of request a text frame is taken for.
pub open spec fn route(m: TextMessage) -> TextRoute {
    if is_login(m) {
        TextRoute::Auth
    } else if is_stats_request(m) {
        TextRoute::Stats
    } else if is_proxy_request(m) {
        TextRoute::Proxy
    } else if is_tunnel_data(m) {
        TextRoute::Tunnel
    } else if m.handshake is Some {
        TextRoute::Handshake
    } else {
        TextRoute::Ignore
    }
}

/// Which kind of request a text frame is taken for, in terms of the frame's
/// readings: a login when read as a login of type `auth`; else a statistics
/// request when read as one of type `get_stats`; else a proxy request when read
/// as one of type `http_proxy_request`, with or without a body; else tunnel
/// data when read as a packet of type `tunnel_data`; else a handshake when it
/// reads as one; else nothing.
pub proof fn lemma_route_by_type(m: TextMessage)
    ensures
        route(m) == TextRoute::Auth <==> (m.auth matches Some(a) && a.message_type@ == "auth"@),
        route(m) == TextRoute::Stats <==> !(m.auth matches Some(a) && a.message_type@ == "auth"@)
            && (m.stats matches Some(st) && st.message_type@ == "get_stats"@),
        route(m) == TextRoute::Proxy <==> !(m.auth matches Some(a) && a.message_type@ == "auth"@)
            && !(m.stats matches Some(st) && st.message_type@ == "get_stats"@) && (m.proxy matches Some(
            p,
        ) && p.message_type@ == "http_proxy_request"@),
        route(m) == TextRoute::Tunnel <==> !(m.auth matches Some(a) && a.message_type@ == "auth"@)
            && !(m.stats matches Some(st) && st.message_type@ == "get_stats"@) && !(m.proxy matches Some(
            p,
        ) && p.message_type@ == "http_proxy_request"@) && (m.tunnel matches Some(t)
            && t.packet_type@ == "tunnel_data"@),
        route(m) == TextRoute::Handshake <==> !(m.auth matches Some(a) && a.message_type@
            == "auth"@) && !(m.stats matches Some(st) && st.message_type@ == "get_stats"@)
            && !(m.proxy matches Some(p) && p.message_type@ == "http_proxy_request"@)
            && !(m.tunnel matches Some(t) && t.packet_type@ == "tunnel_data"@) && m.handshake is Some,
        route(m) == TextRoute::Ignore <==> !(m.auth matches Some(a) && a.message_type@ == "auth"@)
            && !(m.stats matches Some(st) && st.message_type@ == "get_stats"@) && !(m.proxy matches Some(
            p,
        ) && p.message_type@ == "http_proxy_request"@) && !(m.tunnel matches Some(t)
            && t.packet_type@ == "tunnel_data"@) && m.handshake is None,
{
}

/// A proxy request is proxied whatever its body: with no body it is still
/// routed to the proxy, and the received-byte counter does not move.
pub proof fn lemma_bodiless_proxy_request(state: ConnectionState, m: TextMessage)
    requires
        !(m.auth matches Some(a) && a.message_type@ == "auth"@),
        !(m.stats matches Some(st) && st.message_type@ == "get_stats"@),
        m.proxy matches Some(p) && p.message_type@ == "http_proxy_request"@ && p.body is None,
    ensures
        route(m) == TextRoute::Proxy,
        received_after(state, m) == state.bytes_rx,
        sent_after(state, m) == state.bytes_tx,
{
}

/// The length of a proxy request's body, zero when it has none.
pub open spec fn body_len(p: HttpProxyRequest) -> int {
    match p.body {
        Some(b) => b@.len() as int,
        None => 0,
    }
}

/// The received-byte counter after a frame: proxy bodies and tunnelled data count.
pub open spec fn received_after(state: ConnectionState, m: TextMessage) -> int {
    match route(m) {
        TextRoute::Proxy => state.bytes_rx + body_len(m.proxy.unwrap()),
        TextRoute::Tunnel => state.bytes_rx + m.tunnel.unwrap().data@.len(),
        _ => state.bytes_rx as int,
    }
}

/// The sent-byte counter after a frame: echoed tunnel data counts.
pub open spec fn sent_after(state: ConnectionState, m: TextMessage) -> int {
    match route(m) {
        TextRoute::Tunnel => state.bytes_tx + m.tunnel.unwrap().data@.len(),
        _ => state.bytes_tx as int,
    }
}

impl ConnectionState {
    /// A fresh connection: no session, nothing counted.
    pub fn new() -> (r: Self)
        ensures
            r.session_id is None,
            r.bytes_rx == 0,
            r.bytes_tx == 0,
    {
        ConnectionState { session_id: None, bytes_rx: 0, bytes_tx: 0 }
    }
}

/// Whether a text field holds exactly `expected`.
fn field_is(field: &String, expected: &str) -> (r: bool)
    ensures
        r == (field@ == expected@),
{
    text_equals(field.as_str(), expected)
}

/// The kind of request a text frame is taken for.
pub fn text_route(msg: &TextMessage) -> (r: TextRoute)
    ensures
        r == route(*msg),
{
    if let Some(a) = &msg.auth {
        if field_is(&a.message_type, "auth") {
            return TextRoute::Auth;
        }
    }
    if let Some(s) = &msg.stats {
        if field_is(&s.message_type, "get_stats") {
            return TextRoute::Stats;
        }
    }
    if let Some(p) = &msg.proxy {
        if field_is(&p.message_type, "http_proxy_request") {
            return TextRoute::Proxy;
        }
    }
    if let Some(t) = &msg.tunnel {
        if field_is(&t.packet_type, "tunnel_data") {
            return TextRoute::Tunnel;
        }
    }
    if msg.handshake.is_some() {
        return TextRoute::Handshake;
    }
    TextRoute::Ignore
}

/// Whether the byte counters stay within `u64` after this frame, as
/// `on_text` requires.
pub fn counters_fit(state: &ConnectionState, msg: &TextMessage) -> (r: bool)
    ensures
        r == (received_after(*state, *msg) <= u64::MAX && sent_after(*state, *msg) <= u64::MAX),
{
    match text_route(msg) {
        TextRoute::Proxy => {
            let len: usize = match &msg.proxy {
                Some(p) => match &p.body {
                    Some(b) => b.len(),
                    None => 0,
                },
                None => 0,
            };
            (state.bytes_rx as u128) + (len as u128) <= (u64::MAX as u128)
        },
        TextRoute::Tunnel => {
            let len: usize = match &msg.tunnel {
                Some(t) => t.data.len(),
                None => 0,
            };
            (state.bytes_rx as u128) + (len as u128) <= (u64::MAX as u128) && (state.bytes_tx as u128)
                + (len as u128) <= (u64::MAX as u128)
        },
        _ => true,
    }
}

/// Decides what a text frame asks for, and counts its bytes. The counters
/// must not pass `u64::MAX`.
pub fn on_text(state: &mut ConnectionState, msg: TextMessage) -> (action: TextAction)
    requires
        received_after(*old(state), msg) <= u64::MAX,
        sent_after(*old(state), msg) <= u64::MAX,
    ensures
        final(state).session_id == old(state).session_id,
        final(state).bytes_rx == received_after(*old(state), msg),
        final(state).bytes_tx == sent_after(*old(state), msg),
        route(msg) == TextRoute::Auth ==> action == (TextAction::AuthSuccess {
            bytes_rx: old(state).bytes_rx,
            bytes_tx: old(state).bytes_tx,
        }),
        route(msg) == TextRoute::Stats ==> action == (TextAction::StatsResponse {
            bytes_rx: old(state).bytes_rx,
            bytes_tx: old(state).bytes_tx,
        }),
        route(msg) == TextRoute::Proxy ==> action == TextAction::ProxyRequest(msg.proxy.unwrap()),
        route(msg) == TextRoute::Tunnel ==> action == TextAction::TunnelResponse(
            msg.tunnel.unwrap().data,
        ),
        route(msg) == TextRoute::Handshake ==> action == TextAction::Handshake(msg.handshake.unwrap()),
        route(msg) == TextRoute::Ignore ==> action == TextAction::Ignore,
{
    match text_route(&msg) {
        TextRoute::Auth => TextAction::AuthSuccess { bytes_rx: state.bytes_rx, bytes_tx: state.bytes_tx },
        TextRoute::Stats => TextAction::StatsResponse {
            bytes_rx: state.bytes_rx,
            bytes_tx: state.bytes_tx,
        },
        TextRoute::Proxy => {
            let request = msg.proxy.unwrap();
            let len: usize = match &request.body {
                Some(b) => b.len(),
                None => 0,
            };
            state.bytes_rx = state.bytes_rx + len as u64;
            TextAction::ProxyRequest(request)
        },
        TextRoute::Tunnel => {
            let packet = msg.tunnel.unwrap();
            let len = packet.data.len() as u64;
            state.bytes_rx = state.bytes_rx + len;
            state.bytes_tx = state.bytes_tx + len;
            TextAction::TunnelResponse(packet.data)
        },
        TextRoute::Handshake => TextAction::Handshake(msg.handshake.unwrap()),
        TextRoute::Ignore => TextAction::Ignore,
    }
}

/// Runs the client's half of the key exchange: checks the client's
/// Dilithium2 signature over its own public key, encapsulates to that key with
/// Kyber768 and, when both succeed, opens a session keyed by the result and
/// remembers its id.
///
/// Both steps read the same bytes as a public key: a signature passes only
/// with a 1312-byte Dilithium2 key, and encapsulation accepts only a 1184-byte
/// Kyber768 key. So no session is ever opened here, and nothing changes.
pub fn establish_session<W>(
    key_exchange: &KeyExchange,
    manager: &mut SessionManager<W>,
    state: &mut ConnectionState,
    peer_addr: &String,
    ws: W,
    handshake: &HandshakeRequest,
)
    ensures
        final(manager)@ == old(manager)@,
        *final(state) == *old(state),
{
    let pk = handshake.client_public_key.as_slice();
    if key_exchange.verify_client_signature(pk, handshake.signature.as_slice(), pk).is_ok() {
        if let Ok(shared_secret) = key_exchange.process_client_key(pk) {
            if let Ok(id) = manager.create_session(peer_addr.clone(), shared_secret, ws) {
                state.session_id = Some(id);
            }
        }
    }
}

/// Handles a binary frame: with a session, takes the session out of the table
/// and decrypts the frame with it, giving back what decryption gave; the
/// session is not put back. Gives `None` when there is no session to use.
pub fn on_binary<W>(state: &ConnectionState, manager: &mut SessionManager<W>, data: &[u8]) -> (r:
    Option<Result<Vec<u8>, CryptoError>>)
    ensures
        final(manager)@ == (match state.session_id {
            Some(id) => old(manager)@.remove(id@),
            None => old(manager)@,
        }),
        r is Some <==> (state.session_id matches Some(id) && old(manager)@.contains_key(id@)),
        r matches Some(d) ==> ({
            let s = old(manager)@[state.session_id.unwrap()@];
            let opened = aes256gcm_open(s.crypto.key(), nonce_for(s.crypto.counter()), data@);
            &&& opened is None <==> d is Err
            &&& d matches Ok(p) ==> opened == Some(p@)
        }),
{
    if let Some(id) = &state.session_id {
        if let Some(mut session) = manager.get_session(id.as_str()) {
            return Some(session.crypto.decrypt(data));
        }
    }
    None
}

/// Handles the client closing the connection: drops its session, if any.
pub fn on_close<W>(state: &ConnectionState, manager: &mut SessionManager<W>)
    ensures
        final(manager)@ == (match state.session_id {
            Some(id) => old(manager)@.remove(id@),
            None => old(manager)@,
        }),
{
    if let Some(id) = &state.session_id {
        manager.remove_session(id.as_str());
    }
}

} // verus!

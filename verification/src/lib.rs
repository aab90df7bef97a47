//! A post-quantum VPN server's core: the session cryptography, the key
//! exchange, the table of live sessions, the decisions of the WebSocket
//! connection protocol and the planning of proxied HTTP requests.
pub mod primitives;

pub mod crypto;

pub mod session;

pub mod text;

pub mod proxy;

pub mod connection;

pub mod page_proxy;

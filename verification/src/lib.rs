//! Observability for HTTP services: which metrics a request, a socket, a span
//! or an outbound call reports, under which labels, and when.

pub mod client;
pub mod clock;
pub mod connections;
pub mod llm;
pub mod logging;
pub mod metric;
pub mod server;
pub mod service;
pub mod setup;
pub mod spans;
pub mod text;
pub mod tracking;
pub mod traffic;
pub mod websocket;

pub use service::{ServiceMap, ServiceTag};
pub use tracking::Trackable;
pub use websocket::WsTracker;

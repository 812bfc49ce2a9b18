//! The core of a message-queue client: route selection, sending with retries,
//! back pressure, transactions, the client instance's tables and the state of
//! the pull consumers. Everything here is computation; sockets, clocks and
//! tasks belong to the caller.
pub mod admin;
pub mod async_send;
pub mod client;
pub mod client_error_code;
pub mod clock;
pub mod config;
pub mod error;
pub mod extra_info;
pub mod fetch;
pub mod hooks;
pub mod json;
pub mod lite;
pub mod lookup;
pub mod message;
pub mod names;
pub mod permits;
pub mod pop;
pub mod producer;
pub mod properties;
pub mod protocol;
pub mod publish;
pub mod pull;
pub mod request_code;
pub mod response_code;
pub mod result;
pub mod route;
pub mod selector;
pub mod send;
pub mod subscription;
pub mod sysflag;
pub mod table;
pub mod text;
pub mod transaction;
pub mod wire;

//! Server-side logic of a clipboard sharing service: the wire framing of
//! messages, the registry of connections and pair groups, and the per
//! connection session state machine.
pub mod addr_text;
pub mod app_errors;
pub mod assoc;
pub mod bindings;
pub mod channel_manage;
pub mod cursor;
pub mod handler;
pub mod limiter;
pub mod message;
pub mod session_laws;
pub mod utils;

//! Network-facing core of a multi-user text game server: telnet filtering,
//! line framing, colour markup compilation and the decisions of the
//! connection workers and of the server hub, free of any I/O.

pub mod ansicolors;
pub mod buffers;
pub mod chars;
pub mod connection;
pub mod control;
pub mod dnslookup;
pub mod endpoint;
pub mod framer;
pub mod lifecycle;
pub mod logging;
pub mod markup;
pub mod reader;
pub mod server;
pub mod settings;
pub mod sgr;
pub mod telnet;
pub mod template;
pub mod text;

pub use control::ControlSignal;

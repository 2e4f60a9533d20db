//! A verified core for a CGI/1.1 gateway server.
//!
//! The crate holds the request-to-process logic of the gateway: building the
//! CGI environment, parsing the child's header block, the pumping state
//! machine that couples the request body to the child's standard streams, and
//! the concurrency-permit accounting. I/O itself stays outside; the library
//! works on plain values and states what it computes in contracts.

pub mod text;
pub mod env_map;
pub mod server;
pub mod headers;
pub mod process;
pub mod limit;
pub mod timeout;
pub mod client;

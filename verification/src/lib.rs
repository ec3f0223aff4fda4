//! A small static-content server in two parts: a pool of workers that
//! serves jobs first come, first served, and the handling of one
//! connection, from its request line to the bytes of the response.
//!
//! Nothing here touches a thread, a socket or a file. The pool keeps the
//! books for whoever owns the threads; the handler and the response writer
//! decide from what was read and what the content store answered.

pub mod dispatch;
pub mod pool;
pub mod request;
pub mod response;
pub mod text;

pub use pool::{ThreadPool, ThreadSpawnError};
pub use request::RequestType;
pub use response::ResponseStatus;

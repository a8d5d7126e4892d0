//! The core of a small concurrent file server: a fixed-size pool whose
//! workers compete for messages on one FIFO queue, and the per-connection
//! logic that parses a request line and decides the reply.
pub mod job;
pub mod pool;
pub mod request;
pub mod serve;

pub use job::FnBox;
pub use pool::{Message, PoolCreationError, ThreadPool, Worker};
pub use request::{Method, Request, RequestError, parse_request};
pub use serve::{
    Action, Failure, REQUEST_BUFFER_SIZE, Setting, failure_reply, file_response, handle_request,
    join, plan_connection, route, target_path,
};

//! The bodies of requests and responses, as plain data.

pub mod requests;
pub mod responses;

pub use requests::SetRequest;
pub use responses::{DeleteResponse, ErrorResponse, GetResponse, HealthResponse, SetResponse};

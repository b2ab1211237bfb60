pub mod headers;
pub mod request;
pub mod response;
pub mod types;

//! Template-driven upload requests: build a transport-agnostic request from a
//! declarative template and a payload, then derive the result URLs from the
//! server's response body.

pub mod error;
pub mod request;
pub mod resolve;
pub mod template;
pub mod upload;

pub use error::UploadError;
pub use request::{build_request, FormPart, PartContent, RequestBody, UploadRequest};
pub use resolve::{Pattern, UploadResponse};
pub use template::{DataType, Method, UploaderTemplate};
pub use upload::handle_response;

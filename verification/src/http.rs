//! Requests, responses and the text handling they rest on.

pub mod headers;
pub mod method;
pub mod request;
pub mod response;
pub mod strmap;
pub mod text;
pub mod uri;

pub use headers::Headers;
pub use method::Method;
pub use request::parse;
pub use request::parse_head;
pub use request::ParseError;
pub use request::Request;
pub use request::SafeRequest;
pub use response::resolve_reason_phrase;
pub use response::Response;
pub use strmap::StringMap;
pub use uri::parse_from_unsafe;
pub use uri::parse_hex;
pub use uri::URIQuery;
pub use uri::URI;

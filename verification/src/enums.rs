pub mod http_error;
pub mod http_method;
pub mod http_status_code;
pub mod http_version;

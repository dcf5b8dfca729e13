pub mod http_v10;
pub mod http_v11;

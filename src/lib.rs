pub mod circuit;
pub mod chunk;
pub mod dispatch;
pub mod pipeline;
pub mod provision;
pub mod encode;
pub mod request;
pub mod cache;

//! The HTTP server: what is answered to which request.
pub mod images;
pub mod proxy;
pub mod reply;
pub mod static_handler;
pub mod svg;

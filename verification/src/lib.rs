//! A request dispatch core: route resolution, the middleware pipeline and the
//! shutdown slot of an HTTP front end, as pure decisions over plain values.

pub mod config;
pub mod dispatch;
pub mod pattern;
pub mod provided;
pub mod request;
pub mod response;
pub mod routing;
pub mod shutdown;
pub mod table;

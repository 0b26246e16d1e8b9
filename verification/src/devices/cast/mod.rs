//! The Google Cast driver: a device shows a rendition that is already being
//! served.

pub mod media;
pub mod net;
pub mod protocol;
pub mod runtime;
pub mod session;
pub mod store;

//! Supervision of an external video tool: argument building for clip
//! export, a progress/termination reducer that relays deduplicated
//! progress and exactly one terminal notification, a cache-or-build
//! machine for low-resolution proxies, and the codec probe result.

pub mod decimal;
pub mod supervisor;
pub mod export;
pub mod proxy;
pub mod proxy_job;
pub mod codec;

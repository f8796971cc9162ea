//! Sentinel-file watch library.
//!
//! Plants "honey" files (shell rc files, credential stores, SSH material),
//! watches them for access, classifies raw OS notifications into a closed
//! event taxonomy, and plans the response to each event.  Everything here is
//! pure logic on plain values; the OS notification source, the channel and
//! the response-handler processes live with the caller.

pub mod chars;
pub mod codec;
pub mod config;
pub mod engine;
pub mod event;
pub mod monitor;
pub mod numrep;

pub use config::HoneyFileConfig;
pub use event::EventType;
pub use event::FileEvent;
pub use monitor::HoneyFileMonitor;

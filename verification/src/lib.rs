//! Verified orchestration core for a text-detection-and-recognition (OCR)
//! command-line tool.
//!
//! The detection/recognition engine itself, image decoding and all console
//! I/O live outside this crate. What is verified here is the logic that an
//! operator-facing front end needs around such an engine:
//!
//! - pairing detected regions with their cropped sub-images, tolerating
//!   isolated per-region recognition failures ([`aggregate`]);
//! - rendering the aggregated records as a JSON array or as plain text
//!   lines ([`render`]);
//! - the interactive session state machine that validates operator input
//!   and decides when the engine may be invoked ([`session`]);
//! - dispatch of parsed command-line arguments ([`cli`]).

pub mod aggregate;
pub mod cli;
pub mod digits;
pub mod laws;
pub mod model;
pub mod render;
pub mod session;
pub mod text;

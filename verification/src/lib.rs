//! Verified core of a clipboard transformation utility.
//!
//! Global hotkeys trigger either a transform of the current clipboard text
//! through a remote text-generation API, or a cycle through the configured
//! transformation modes. This crate holds the event-driven pipeline logic:
//! the mode configuration and its on-disk JSON format, the mode cursor, the
//! press/release debouncing of raw hotkey events, and the transform sequence
//! with its failure handling. Platform event loops, file access and synthetic
//! keystrokes live outside, around this library.

pub mod codec;
pub mod config;
pub mod cursor;
pub mod dispatch;
pub mod engine;
pub mod error;
pub mod session;
pub mod text;

//! Nul-terminated UTF-16 strings for a firmware interface.
//!
//! [`Str16`] is a borrowed view over code units that end in a single
//! terminator; [`String16`] owns such a buffer. Native text is encoded into
//! the restricted single-unit subset the firmware accepts, and any well-formed
//! UTF-16 payload can be decoded back into native text.

pub mod units;
pub mod utf16;
pub mod str16;
pub mod string16;
pub mod laws;

pub use crate::str16::Str16;
pub use crate::string16::String16;
pub use crate::string16::TryFromString16Error;

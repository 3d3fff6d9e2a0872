//! An error wrapper over Win32 API error codes.
//!
//! The crate centres on [`Win32Error`], a value type holding a 32-bit OS
//! error code, together with conversions to and from the raw integer and a
//! host OS-error abstraction, and a message renderer that turns the raw
//! UTF-16 reply of the OS message table into trimmed Unicode text, falling
//! back to a hexadecimal literal when the code is unknown.

pub mod error;
pub mod render;

pub use error::OsError;
pub use error::TryFromIoError;
pub use error::Win32Error;
pub use render::decode_utf16_lossy;
pub use render::hex_literal_chars;
pub use render::render_message;
pub use render::trim_whitespace;
pub use render::REPLACEMENT;

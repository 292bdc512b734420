//! Rendering of captured HTTP exchanges (header blocks and bodies) for a
//! command-line HTTP client, with verified contracts.

pub mod charset;
pub mod content;
pub mod headers;
pub mod laws;
pub mod message;
pub mod printer;
pub mod text;

pub use content::ContentType;
pub use headers::Header;
pub use message::{HttpVersion, Request, Response};
pub use printer::{BodyPlan, Buffer, BufferKind, Piece, Pretty, Printer, Render, Syntax, Theme};

//! The STOMP wire protocol: commands, headers, frames and the frame parser.

pub mod command;
pub mod frame;
pub mod headers;
pub mod laws;
pub mod message;
pub mod parser;
pub mod text;

pub use command::{ClientCommand, Command, ServerCommand};
pub use headers::Headers;
pub use message::{Frame, StompMessage};
pub use parser::{FrameParser, ParseError};

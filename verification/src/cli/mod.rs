//! The interactive command line around the engine: input parsing, command
//! history, and a renderer that turns render requests into terminal bytes.

pub mod context;
pub mod hist;
pub mod key_events;
pub mod parse;
pub mod renderer;

pub use hist::InputHistory;
pub use parse::ParsedCommand;
pub use renderer::RenderRequest;
pub use renderer::Renderer;

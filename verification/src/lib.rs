//! A view router for terminal applications.
//!
//! A [`View`] is one screen: a title and a renderer of its content. A
//! [`Construct`] shows one view at a time on its [`Terminal`], wiping what the
//! previous view left behind. Every request that reaches the output target
//! goes through the terminal handle, which keeps the dialogue with the target
//! as a ghost log; the contracts of this crate are stated over that log.

pub mod construct;
pub mod dialogue;
pub mod error;
pub mod laws;
pub mod recorder;
pub mod router;
pub mod terminal;
pub mod view;

pub use construct::{Construct, ConstructBuilder};
pub use error::WriteError;
pub use recorder::{Event, Recorder};
pub use router::Router;
pub use terminal::{Clear, Clearing, Target, Terminal, WriteLineBreak, FALLBACK_LINES};
pub use view::View;

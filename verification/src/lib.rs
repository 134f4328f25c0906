//! A minimalist terminal user-interface library: raw-mode terminal lifecycle,
//! incremental key-event decoding, and a small cell-grid toolkit.

use vstd::prelude::*;

pub mod buffer;
pub mod frame;
pub mod input;
pub mod layout;
pub mod style;
pub mod terminal;
pub mod widgets;

pub use buffer::{Buffer, Cell};
pub use frame::Frame;
pub use input::{Event, KeyCode, KeyEvent, KeyModifiers};
pub use layout::{Constraint, Direction, Layout, Rect};
pub use style::{Color, Modifier, Style};
pub use terminal::{Call, IoError, MockSystem, System, Terminal, Termios};
pub use widgets::Widget;

verus! {

/// What the application asks the runtime to do after handling an event.
#[derive(Debug, Clone, PartialEq, Eq, Structural)]
pub enum Command {
    /// Keep running the event loop.
    Continue,
    /// Stop the application and exit.
    Quit,
}

/// The interface an application implements to be driven by a runtime
/// loop: map raw events to actions, update state, and draw it.
pub trait Application: Sized {
    /// The message type the application updates its state with.
    type Action;

    /// Called once before the event loop starts.
    fn init(&self) -> Command {
        Command::Continue
    }

    /// Maps a raw terminal event to an application action; None ignores
    /// the event.
    fn on_event(&self, event: Event) -> Option<Self::Action> {
        None
    }

    /// Updates the application state and says whether to keep running.
    fn update(&mut self, msg: Self::Action) -> Command;

    /// Renders the current state as a string.
    fn draw(&self) -> String;
}

} // verus!

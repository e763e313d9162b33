//! A terminal resume viewer, split into a verified core and a thin
//! rendering shell.
//!
//! The core holds the pieces whose behaviour is worth stating and
//! proving: the tab selector with wrap-around navigation (`tabs`), the
//! layout engine that partitions a rectangle by size constraints
//! (`layout`) and the per-tab rectangle plans built on it (`frame`),
//! the gauge percent arithmetic (`gauge`), the control-loop step that
//! turns one event into a state update (`events`), and the lexer for
//! the inline style-tag mini-language used by paragraph text
//! (`markup`).  Terminal I/O and widget painting live outside the
//! library.

pub mod events;
pub mod frame;
pub mod gauge;
pub mod layout;
pub mod markup;
pub mod tabs;

pub use tabs::MyTabs;

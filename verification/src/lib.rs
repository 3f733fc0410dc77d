//! The decisions behind two small desktop shells around `dsh --profile web`:
//! one that shows its UI in a native window, and one that keeps it running
//! behind a tray icon.
//!
//! Nothing here touches a process, a stream, a clock or a window. What has to
//! be decided is a function from plain values to plain values, or a step from
//! a state and an event to the next state and an action; the shells perform
//! the actions and report what came of them.
//!
//! - [`launch`] and [`tray`] say what is run, with which arguments, where.
//! - [`ready`] finds the announced URL in the child's stdout, [`tail`] keeps
//!   the end of its stderr, and [`wait`] bounds the waits for either.
//! - [`slot`] tracks the child across threads, and [`terminate`] stops it.
//! - [`page`] and [`startup`] say what the window shows.
pub mod command;
pub mod launch;
pub mod page;
pub mod ready;
pub mod slot;
pub mod startup;
pub mod tail;
pub mod terminate;
pub mod text;
pub mod tray;
pub mod wait;

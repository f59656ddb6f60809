//! A lab notebook for the terminal: journal entries by day, tasks, and a search over them.
//!
//! - [`text`] works on strings as sequences of characters.
//! - [`calendar`] has dates, clock times and the local clock.
//! - [`journal`] has what is kept on disk.
//! - [`search`] finds and ranks entries.
//! - [`state`] is the notebook itself, and [`input`] what the keys do to it.
//! - [`screen`] says what stands on the screen.
//! - [`storage`] says where the data goes.
//! - [`sync`] says how a change is saved, committed and pushed.
//! - [`laws`] holds what is true of them together.
pub mod calendar;
pub mod input;
pub mod journal;
pub mod laws;
pub mod screen;
pub mod search;
pub mod state;
pub mod storage;
pub mod sync;
pub mod text;

//! What holds of the notebook as a whole.
pub mod entries;
pub mod keys;
pub mod notebook;
pub mod paths;
pub mod screens;
pub mod searching;
pub mod syncing;
pub mod times;
pub mod views;
pub mod words;

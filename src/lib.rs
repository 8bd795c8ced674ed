//! Core of a terminal chat client for locally hosted language models:
//! a character-addressed line editor, a per-model session store, the
//! exchange state machine and a small markdown/code renderer.
pub mod app;
pub mod keys;
pub mod store;
pub mod text;
pub mod ui;
pub mod utils;

//! An interactive query prompt library: a verified session state machine that
//! multiplexes keyboard events with a debounced external search, plus the pure
//! pieces around it — query editing, selection navigation, command-line
//! construction from templates, decoding of the search process's output, and
//! translation of session state into terminal draw operations.

pub mod controller;
pub mod debounce;
pub mod digits;
pub mod payload;
pub mod render;
pub mod results;
pub mod search;
pub mod trusted;

//! A minimal full-screen text file viewer.
//!
//! The crate holds the viewer's core as verified code: line-number layout,
//! frame construction, quit-key handling, and the control flow of the
//! render/poll session. Terminal and file I/O live in the surrounding
//! application, which drives this library with plain values.

pub mod encode;
pub mod lines;
pub mod input;
pub mod numfmt;
pub mod render;
pub mod viewer;

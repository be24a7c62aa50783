//! A terminal file previewer's core: a markup-to-document transducer that
//! turns a stream of semantic markup events into a styled, line-oriented
//! document, and a viewport controller that keeps a cursor and scroll window
//! consistent while the user navigates that document.

pub mod document;
pub mod magic;
pub mod markdown;
pub mod pdf;
pub mod viewer;
pub mod width;
pub mod detect;

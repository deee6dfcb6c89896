//! Photo-to-print pipeline library.
//!
//! Watches for newly produced photo files, composites each accepted photo
//! onto a fixed rectangle of a template document, and prepares the result
//! for submission to a printer, while a bounded preview cache keeps
//! recently decoded previews available without redundant decode work.

pub mod bitmap;
pub mod cache;
pub mod errors;
pub mod imaging;
pub mod paths;
pub mod pdf;
pub mod pipeline;
pub mod printer;
pub mod session;

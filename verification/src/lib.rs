//! Generates a typed asset-registry source listing from directory scans.
//!
//! Two fixed categories of assets (images and svgs) each map to a named
//! container of `identifier = "path"` constant bindings.  The manifest text
//! is a pure function of the file names found under the two category
//! directories; everything that computes that text is verified here, while
//! directory walking, file writing and change watching live in the
//! surrounding application.

pub mod camel;
pub mod generate;
pub mod laws;
pub mod watch;

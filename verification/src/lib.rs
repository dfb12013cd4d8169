//! Extraction of chat messages from game logs, and the layout of what is
//! rendered from them: plain text, table rows and the canvas of an image.
//!
//! A line of a log is first classified against the known shapes of a chat
//! line, then split into its timestamp and its message. A selection narrows
//! the records, and one of the renderers lays the result out.

pub mod canvas;
pub mod classify;
pub mod error;
pub mod extract;
pub mod pattern;
pub mod render;
pub mod scan;
pub mod selection;
pub mod shape;
pub mod text;

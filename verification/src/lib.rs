//! Normalisation of container log streams.
//!
//! Raw byte chunks are reassembled into logical lines, each line is
//! classified against a fixed, ordered set of known log formats, embedded JSON
//! objects are located and recoloured, and a render decision is produced.
//! Every function here carries a contract that Verus proves.

pub mod buffer;
pub mod frames;
pub mod lines;
pub mod patterns;
pub mod recolor;
pub mod render;
pub mod render_laws;
pub mod request;
pub mod select;
pub mod shape;
pub mod span_laws;
pub mod spans;
pub mod stream;
pub mod style;
pub mod text;
pub mod time;

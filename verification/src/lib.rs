//! A composable byte-stream transformation pipeline.
//!
//! A command line names an ordered chain of transform stages, each with its
//! own options; the engine feeds input bytes through the chain and returns
//! the output. The crate holds the execution core: a tokenizer and a
//! recursive-descent parser for the command language (including nested
//! sub-pipelines), an incremental adapter that drives byte-group transforms
//! from arbitrarily chunked writes, a name-to-transform registry, and an
//! executor that resolves options (evaluating sub-pipelines) and runs the
//! stages in order.

use vstd::prelude::*;

pub mod adapters;
pub mod base64codec;
pub mod basic;
pub mod blockcipher;
pub mod bytes;
pub mod codec_trait;
pub mod commands;
pub mod errors;
pub mod escapecodec;
pub mod executor;
pub mod files;
pub mod filestore;
pub mod hashcodec;
pub mod hexcodec;
pub mod options;
pub mod rsacodec;
pub mod systemcodec;
pub mod parser;
pub mod registry;
pub mod urlcodec;
pub mod usagecodec;
pub mod zlibcodec;

pub use errors::CodecError;

verus! {

/// The ambient direction a pipeline runs in. Each stage may override it
/// for itself with its own `e`/`d` switch.
#[derive(Copy, Clone, PartialEq, Eq, Structural, Debug)]
pub enum CodecMode {
    Encoding,
    Decoding,
}

} // verus!

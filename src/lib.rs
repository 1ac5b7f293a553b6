//! Turning a speech transcript into a summary through a text-generation
//! service: splitting transcripts into chunks, building prompts and request
//! bodies, reading streamed replies, and ordering the pipeline's stages.
use vstd::prelude::*;

pub mod text;
pub mod chunk;
pub mod stream;
pub mod prompt;
pub mod pipeline;
pub mod run;

verus! {

} // verus!

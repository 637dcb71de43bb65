//! What can go wrong. Every error ends the compilation pass.

use crate::compilation::{ChunkGroupUkey, ChunkUkey};
use vstd::prelude::*;
use vstd::string::*;

verus! {

/// A fatal error, with the key that it is about.
#[derive(Clone, Copy, Debug, PartialEq, Eq, Structural)]
pub enum Error {
    /// No chunk has this key.
    MissingChunk(ChunkUkey),
    /// The chunk has no entry module, and so no entry point.
    MissingEntryPoint(ChunkUkey),
    /// No chunk group has this key.
    MissingChunkGroup(ChunkGroupUkey),
    /// No chunk has this key, which a chunk group names as its runtime chunk.
    MissingRuntimeChunk(ChunkUkey),
    /// The rules of this chunk did not settle within the allowed passes.
    FixedPointOverrun(ChunkUkey),
}

impl Error {
    /// The key that the error is about.
    pub fn ukey(&self) -> (ukey: usize)
        ensures
            ukey == match *self {
                Error::MissingChunk(k) => k,
                Error::MissingEntryPoint(k) => k,
                Error::MissingChunkGroup(k) => k,
                Error::MissingRuntimeChunk(k) => k,
                Error::FixedPointOverrun(k) => k,
            },
    {
        match *self {
            Error::MissingChunk(k) => k,
            Error::MissingEntryPoint(k) => k,
            Error::MissingChunkGroup(k) => k,
            Error::MissingRuntimeChunk(k) => k,
            Error::FixedPointOverrun(k) => k,
        }
    }

    /// The text of each kind of error.
    pub open spec fn spec_message(&self) -> Seq<char> {
        match *self {
            Error::MissingChunk(_) => "chunk not found"@,
            Error::MissingEntryPoint(_) => "should has entry point ukey"@,
            Error::MissingChunkGroup(_) => "should has entry point"@,
            Error::MissingRuntimeChunk(_) => "should has runtime chunk"@,
            Error::FixedPointOverrun(_) => "runtime requirements did not settle"@,
        }
    }

    /// The text of the error, without its key.
    pub fn message(&self) -> (message: String)
        ensures
            message@ == self.spec_message(),
    {
        match *self {
            Error::MissingChunk(_) => String::from_str("chunk not found"),
            Error::MissingEntryPoint(_) => String::from_str("should has entry point ukey"),
            Error::MissingChunkGroup(_) => String::from_str("should has entry point"),
            Error::MissingRuntimeChunk(_) => String::from_str("should has runtime chunk"),
            Error::FixedPointOverrun(_) => String::from_str("runtime requirements did not settle"),
        }
    }
}

} // verus!

//! The interface of a chunk format: the hooks through which it takes part in
//! requirement resolution and hashing, and what each hook is handed.

use crate::compilation::{Chunk, ChunkUkey, Compilation};
use crate::error::Error;
use crate::filename::{is_runtime_chunk_path, FilenameRenderOptions};
use crate::hasher::absorbed;
use crate::runtime_globals::RuntimeGlobals;
use crate::runtime_module::{extends, RuntimeModule};
use vstd::prelude::*;
use xxhash_rust::xxh3::Xxh3;

verus! {

broadcast use vstd::std_specs::hash::group_hash_axioms;

/// What requirement resolution works on for one chunk: the flags that the
/// chunk has gathered and the runtime modules registered for it. It belongs
/// to the resolution of that chunk alone.
pub struct AdditionalChunkRuntimeRequirementsArgs {
    pub chunk: ChunkUkey,
    pub runtime_requirements: RuntimeGlobals,
    pub runtime_modules: Vec<RuntimeModule>,
}

/// The requirements of one chunk as values: its flags and its runtime modules
/// in registration order.
pub struct ChunkRequirements {
    pub chunk: ChunkUkey,
    pub runtime_requirements: RuntimeGlobals,
    pub runtime_modules: Seq<RuntimeModule>,
}

impl View for AdditionalChunkRuntimeRequirementsArgs {
    type V = ChunkRequirements;

    open spec fn view(&self) -> ChunkRequirements {
        ChunkRequirements {
            chunk: self.chunk,
            runtime_requirements: self.runtime_requirements,
            runtime_modules: self.runtime_modules@,
        }
    }
}

/// From `before` to `after` nothing was lost: the chunk is the same, every
/// flag is still there, and every runtime module kind is still in its place.
pub open spec fn grows_to(before: ChunkRequirements, after: ChunkRequirements) -> bool {
    &&& after.chunk == before.chunk
    &&& before.runtime_requirements.subset_of(after.runtime_requirements)
    &&& extends(before.runtime_modules, after.runtime_modules)
}

/// A hook that was to leave `expected` did so: on success the requirements
/// are what was expected; on failure the error is the expected one and the
/// requirements are untouched.
pub open spec fn hook_outcome(
    expected: Result<ChunkRequirements, Error>,
    before: ChunkRequirements,
    after: ChunkRequirements,
    outcome: Result<(), Error>,
) -> bool {
    match expected {
        Ok(next) => outcome is Ok && after == next,
        Err(e) => outcome == Err::<(), Error>(e) && after == before,
    }
}

/// A hash hook that was to feed `expected` did so: on success the hasher took
/// in exactly these bytes; on failure it took in nothing.
pub open spec fn hash_outcome(
    expected: Result<Seq<u8>, Error>,
    before: Xxh3,
    after: Xxh3,
    outcome: Result<(), Error>,
) -> bool {
    match expected {
        Ok(bytes) => outcome is Ok && absorbed(after) == absorbed(before) + bytes,
        Err(e) => outcome == Err::<(), Error>(e) && absorbed(after) == absorbed(before),
    }
}

/// What hashing a chunk works on.
pub struct JsChunkHashArgs<'a> {
    pub chunk_ukey: &'a ChunkUkey,
    pub compilation: &'a Compilation,
}

impl<'a> JsChunkHashArgs<'a> {
    /// The chunk to hash, if the compilation has it.
    pub fn chunk(&self) -> (chunk: Option<&'a Chunk>)
        ensures
            match chunk {
                Some(c) => self.compilation.chunk_by_ukey@.contains_key(*self.chunk_ukey) && *c
                    == self.compilation.chunk_by_ukey@[*self.chunk_ukey],
                None => !self.compilation.chunk_by_ukey@.contains_key(*self.chunk_ukey),
            },
    {
        self.compilation.chunk_by_ukey.get(self.chunk_ukey)
    }
}

/// What rendering a chunk works on.
pub struct RenderChunkArgs<'a> {
    pub compilation: &'a Compilation,
    pub chunk_ukey: &'a ChunkUkey,
}

impl<'a> RenderChunkArgs<'a> {
    /// The chunk to render, if the compilation has it.
    pub fn chunk(&self) -> (chunk: Option<&'a Chunk>)
        ensures
            match chunk {
                Some(c) => self.compilation.chunk_by_ukey@.contains_key(*self.chunk_ukey) && *c
                    == self.compilation.chunk_by_ukey@[*self.chunk_ukey],
                None => !self.compilation.chunk_by_ukey@.contains_key(*self.chunk_ukey),
            },
    {
        self.compilation.chunk_by_ukey.get(self.chunk_ukey)
    }
}

/// What others have rendered of a chunk, for a chunk format to put together.
pub struct ChunkFragments {
    /// The table of the chunk's modules.
    pub modules: String,
    /// The table of the chunk's runtime modules, in registration order.
    pub runtime_modules: String,
    /// What the startup hook made for the last entry module, if anything.
    pub startup: Option<String>,
}

/// A chunk format, or another party to requirement resolution. Each hook has
/// a function that says what it does; a hook does that and nothing else, so
/// that running it twice on one input gives one result.
pub trait Plugin {
    /// The name of the plugin.
    spec fn spec_name(&self) -> Seq<char>;

    fn name(&self) -> (name: &'static str)
        ensures
            name@ == self.spec_name(),
    ;

    /// Gets the plugin ready before the first chunk is worked on.
    fn apply(&mut self) -> (outcome: Result<(), Error>);

    /// What seeding leaves of `state`: the requirements that the chunk has by
    /// its place in the graph, whatever its modules ask for.
    spec fn additional_requirements(
        &self,
        compilation: &Compilation,
        state: ChunkRequirements,
    ) -> Result<ChunkRequirements, Error>;

    /// Seeds the requirements of a chunk. Called once per chunk.
    fn additional_chunk_runtime_requirements(
        &self,
        compilation: &Compilation,
        args: &mut AdditionalChunkRuntimeRequirementsArgs,
    ) -> (outcome: Result<(), Error>)
        ensures
            hook_outcome(
                self.additional_requirements(compilation, old(args)@),
                old(args)@,
                final(args)@,
                outcome,
            ),
    ;

    /// What the rule of this plugin leaves of `state`.
    spec fn tree_requirements(
        &self,
        compilation: &Compilation,
        state: ChunkRequirements,
    ) -> Result<ChunkRequirements, Error>;

    /// Applies the rule of this plugin to the requirements of a chunk. Called
    /// again and again until the requirements settle.
    fn runtime_requirements_in_tree(
        &self,
        compilation: &Compilation,
        args: &mut AdditionalChunkRuntimeRequirementsArgs,
    ) -> (outcome: Result<(), Error>)
        ensures
            hook_outcome(
                self.tree_requirements(compilation, old(args)@),
                old(args)@,
                final(args)@,
                outcome,
            ),
    ;

    /// Neither hook takes anything away: flags only come, and a registered
    /// runtime module keeps its place.
    proof fn lemma_requirements_grow(&self, compilation: &Compilation, state: ChunkRequirements)
        ensures
            self.additional_requirements(compilation, state) matches Ok(next) ==> grows_to(
                state,
                next,
            ),
            self.tree_requirements(compilation, state) matches Ok(next) ==> grows_to(state, next),
    ;

    /// The bytes that this plugin adds to the hash of `chunk`.
    spec fn hash_contribution(&self, compilation: &Compilation, chunk: ChunkUkey) -> Result<
        Seq<u8>,
        Error,
    >;

    /// Feeds the contribution of this plugin to the hash of a chunk.
    fn js_chunk_hash(&self, args: &JsChunkHashArgs, hasher: &mut Xxh3) -> (outcome: Result<
        (),
        Error,
    >)
        ensures
            hash_outcome(
                self.hash_contribution(args.compilation, *args.chunk_ukey),
                *old(hasher),
                *final(hasher),
                outcome,
            ),
    ;

    /// `source` is what this plugin renders of the chunk of `args`, given the
    /// fragments `fragments`, where `is_path` holds of a runtime chunk and
    /// each path that the file-name template can give it: the source of the
    /// chunk; nothing, where the plugin is no chunk format; or the error with
    /// which rendering fails.
    spec fn rendered(
        &self,
        args: RenderChunkArgs,
        fragments: ChunkFragments,
        is_path: spec_fn(Chunk, Seq<char>) -> bool,
        source: Result<Option<String>, Error>,
    ) -> bool;

    /// Renders a chunk from what others rendered of it. The chunk has its id
    /// by the time it is rendered.
    fn render_chunk<F: Fn(FilenameRenderOptions) -> String>(
        &self,
        args: &RenderChunkArgs,
        fragments: &ChunkFragments,
        render_filename: &F,
    ) -> (source: Result<Option<String>, Error>)
        requires
            forall|options: FilenameRenderOptions| call_requires(render_filename, (options,)),
            args.compilation.chunk_by_ukey@.contains_key(*args.chunk_ukey)
                ==> args.compilation.chunk_by_ukey@[*args.chunk_ukey].id is Some,
        ensures
            self.rendered(
                *args,
                *fragments,
                |chunk: Chunk, path: Seq<char>| is_runtime_chunk_path(chunk, render_filename, path),
                source,
            ),
    ;
}

} // verus!

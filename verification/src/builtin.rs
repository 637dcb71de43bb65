//! The plugins that this crate brings, as one type, so that a list of plugins
//! can hold any of them.

use crate::common_js_chunk_format::CommonJsChunkFormatPlugin;
use crate::compilation::{Chunk, ChunkUkey, Compilation};
use crate::error::Error;
use crate::filename::FilenameRenderOptions;
use crate::module_chunk_loading::ModuleChunkLoadingPlugin;
use crate::plugin::{
    AdditionalChunkRuntimeRequirementsArgs, ChunkFragments, ChunkRequirements, JsChunkHashArgs,
    Plugin, RenderChunkArgs,
};
use vstd::prelude::*;
use xxhash_rust::xxh3::Xxh3;

verus! {

/// One of the plugins of this crate. Each hook is the hook of the plugin held.
#[derive(Debug)]
pub enum BuiltinPlugin {
    CommonJsChunkFormat(CommonJsChunkFormatPlugin),
    ModuleChunkLoading(ModuleChunkLoadingPlugin),
}

impl Plugin for BuiltinPlugin {
    open spec fn spec_name(&self) -> Seq<char> {
        match self {
            BuiltinPlugin::CommonJsChunkFormat(plugin) => plugin.spec_name(),
            BuiltinPlugin::ModuleChunkLoading(plugin) => plugin.spec_name(),
        }
    }

    fn name(&self) -> (name: &'static str) {
        match self {
            BuiltinPlugin::CommonJsChunkFormat(plugin) => plugin.name(),
            BuiltinPlugin::ModuleChunkLoading(plugin) => plugin.name(),
        }
    }

    fn apply(&mut self) -> (outcome: Result<(), Error>)
        ensures
            outcome is Ok,
            *final(self) == *old(self),
    {
        match self {
            BuiltinPlugin::CommonJsChunkFormat(plugin) => plugin.apply(),
            BuiltinPlugin::ModuleChunkLoading(plugin) => plugin.apply(),
        }
    }

    open spec fn additional_requirements(
        &self,
        compilation: &Compilation,
        state: ChunkRequirements,
    ) -> Result<ChunkRequirements, Error> {
        match self {
            BuiltinPlugin::CommonJsChunkFormat(plugin) => plugin.additional_requirements(
                compilation,
                state,
            ),
            BuiltinPlugin::ModuleChunkLoading(plugin) => plugin.additional_requirements(
                compilation,
                state,
            ),
        }
    }

    fn additional_chunk_runtime_requirements(
        &self,
        compilation: &Compilation,
        args: &mut AdditionalChunkRuntimeRequirementsArgs,
    ) -> (outcome: Result<(), Error>) {
        match self {
            BuiltinPlugin::CommonJsChunkFormat(plugin) => plugin.additional_chunk_runtime_requirements(
                compilation,
                args,
            ),
            BuiltinPlugin::ModuleChunkLoading(plugin) => plugin.additional_chunk_runtime_requirements(
                compilation,
                args,
            ),
        }
    }

    open spec fn tree_requirements(
        &self,
        compilation: &Compilation,
        state: ChunkRequirements,
    ) -> Result<ChunkRequirements, Error> {
        match self {
            BuiltinPlugin::CommonJsChunkFormat(plugin) => plugin.tree_requirements(
                compilation,
                state,
            ),
            BuiltinPlugin::ModuleChunkLoading(plugin) => plugin.tree_requirements(
                compilation,
                state,
            ),
        }
    }

    fn runtime_requirements_in_tree(
        &self,
        compilation: &Compilation,
        args: &mut AdditionalChunkRuntimeRequirementsArgs,
    ) -> (outcome: Result<(), Error>) {
        match self {
            BuiltinPlugin::CommonJsChunkFormat(plugin) => plugin.runtime_requirements_in_tree(
                compilation,
                args,
            ),
            BuiltinPlugin::ModuleChunkLoading(plugin) => plugin.runtime_requirements_in_tree(
                compilation,
                args,
            ),
        }
    }

    proof fn lemma_requirements_grow(&self, compilation: &Compilation, state: ChunkRequirements) {
        match self {
            BuiltinPlugin::CommonJsChunkFormat(plugin) => plugin.lemma_requirements_grow(
                compilation,
                state,
            ),
            BuiltinPlugin::ModuleChunkLoading(plugin) => plugin.lemma_requirements_grow(
                compilation,
                state,
            ),
        }
    }

    open spec fn hash_contribution(&self, compilation: &Compilation, chunk: ChunkUkey) -> Result<
        Seq<u8>,
        Error,
    > {
        match self {
            BuiltinPlugin::CommonJsChunkFormat(plugin) => plugin.hash_contribution(
                compilation,
                chunk,
            ),
            BuiltinPlugin::ModuleChunkLoading(plugin) => plugin.hash_contribution(
                compilation,
                chunk,
            ),
        }
    }

    fn js_chunk_hash(&self, args: &JsChunkHashArgs, hasher: &mut Xxh3) -> (outcome: Result<
        (),
        Error,
    >) {
        match self {
            BuiltinPlugin::CommonJsChunkFormat(plugin) => plugin.js_chunk_hash(args, hasher),
            BuiltinPlugin::ModuleChunkLoading(plugin) => plugin.js_chunk_hash(args, hasher),
        }
    }

    open spec fn rendered(
        &self,
        args: RenderChunkArgs,
        fragments: ChunkFragments,
        is_path: spec_fn(Chunk, Seq<char>) -> bool,
        source: Result<Option<String>, Error>,
    ) -> bool {
        match self {
            BuiltinPlugin::CommonJsChunkFormat(plugin) => plugin.rendered(
                args,
                fragments,
                is_path,
                source,
            ),
            BuiltinPlugin::ModuleChunkLoading(plugin) => plugin.rendered(
                args,
                fragments,
                is_path,
                source,
            ),
        }
    }

    fn render_chunk<F: Fn(FilenameRenderOptions) -> String>(
        &self,
        args: &RenderChunkArgs,
        fragments: &ChunkFragments,
        render_filename: &F,
    ) -> (source: Result<Option<String>, Error>) {
        match self {
            BuiltinPlugin::CommonJsChunkFormat(plugin) => plugin.render_chunk(
                args,
                fragments,
                render_filename,
            ),
            BuiltinPlugin::ModuleChunkLoading(plugin) => plugin.render_chunk(
                args,
                fragments,
                render_filename,
            ),
        }
    }
}

} // verus!

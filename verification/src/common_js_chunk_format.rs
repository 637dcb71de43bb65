//! The CommonJS chunk format: a chunk is a module that exports its id, its
//! module table and its runtime modules, and that runs its entry modules
//! inside the runtime that it imports.

use crate::compilation::{
    Chunk, ChunkGroupUkey, ChunkUkey, Compilation, EntryModules, ModuleIdentifier,
};
use crate::error::Error;
use crate::filename::{is_runtime_chunk_path, FilenameRenderOptions};
use crate::hasher::{absorbed, feed, framed_text, push_framed_text};
use crate::helpers::{
    entry_startup_feed, entry_startup_hash_input, get_runtime_chunk_path, runtime_chunk_of,
};
use crate::plugin::{
    hash_outcome, hook_outcome, AdditionalChunkRuntimeRequirementsArgs, ChunkFragments,
    ChunkRequirements, JsChunkHashArgs, Plugin, RenderChunkArgs,
};
use crate::runtime_globals::{
    lemma_subset_reflexive, lemma_subset_transitive, lemma_union_upper_bound, RuntimeGlobals,
    EXTERNAL_INSTALL_CHUNK, REQUIRE,
};
use crate::runtime_module::{lemma_extends_reflexive, RuntimeModule};
use vstd::prelude::*;
use vstd::string::*;
use xxhash_rust::xxh3::Xxh3;

verus! {

broadcast use vstd::std_specs::hash::group_hash_axioms;

/// The plugin of the CommonJS chunk format.
#[derive(Debug)]
pub struct CommonJsChunkFormatPlugin {}

/// The declaration of the chunk's own id.
pub open spec fn id_declaration(id: Seq<char>) -> Seq<char> {
    "exports.ids = ['"@ + id + "'];\n"@
}

/// The export of the module table.
pub open spec fn modules_export(modules: Seq<char>) -> Seq<char> {
    "exports.modules = "@ + modules + ";\n"@
}

/// The export of the runtime module table.
pub open spec fn runtime_export(runtime_modules: Seq<char>) -> Seq<char> {
    "exports.runtime = "@ + runtime_modules + ";\n"@
}

/// The import of the runtime from the runtime chunk at `path`.
pub open spec fn runtime_import(path: Seq<char>) -> Seq<char> {
    "\nvar "@ + RuntimeGlobals { bits: REQUIRE }.spec_name() + " = require('"@ + path + "');\n"@
}

/// The call that installs this chunk's tables into the loaded runtime.
pub open spec fn activation() -> Seq<char> {
    "\n"@ + RuntimeGlobals { bits: EXTERNAL_INSTALL_CHUNK }.spec_name() + "(exports)\n"@
}

/// The call that runs the entry module with the stable id `id`.
pub open spec fn entry_invocation(id: Seq<char>) -> Seq<char> {
    RuntimeGlobals { bits: REQUIRE }.spec_name() + "(\""@ + id + "\");\n"@
}

/// The calls that run the entry modules `entries`, in declaration order. A
/// module without a stable id is passed over.
pub open spec fn entry_code(
    compilation: &Compilation,
    entries: Seq<(ModuleIdentifier, ChunkGroupUkey)>,
) -> Seq<char>
    decreases entries.len(),
{
    if entries.len() == 0 {
        Seq::empty()
    } else {
        entry_code(compilation, entries.drop_last()) + match compilation.chunk_graph.module_id_of(
            entries.last().0,
        ) {
            Some(id) => entry_invocation(id),
            None => Seq::empty(),
        }
    }
}

/// The text of an optional fragment; nothing where there is none.
pub open spec fn fragment_text(fragment: Option<String>) -> Seq<char> {
    match fragment {
        Some(text) => text@,
        None => Seq::empty(),
    }
}

/// The source of the chunk `chunk` in this format, in fixed order: the id
/// declaration; the module table; the runtime module table, where runtime
/// modules are registered for the chunk; and, where the chunk has entry
/// modules, the import of the runtime from `runtime_chunk_path`, the
/// activation call, the calls of all entry modules, and the startup fragment.
pub open spec fn chunk_source(
    compilation: &Compilation,
    chunk: ChunkUkey,
    fragments: ChunkFragments,
    runtime_chunk_path: Seq<char>,
) -> Seq<char> {
    let entries = compilation.chunk_graph.entries_of(chunk);
    let head = id_declaration(fragment_text(compilation.chunk_by_ukey@[chunk].id)) + modules_export(
        fragments.modules@,
    );
    let runtime = if compilation.chunk_graph.runtime_modules_of(chunk).len() > 0 {
        runtime_export(fragments.runtime_modules@)
    } else {
        Seq::empty()
    };
    let startup = if entries.len() > 0 {
        runtime_import(runtime_chunk_path) + activation() + entry_code(compilation, entries)
            + fragment_text(fragments.startup)
    } else {
        Seq::empty()
    };
    head + runtime + startup
}

/// The entry module for which the startup hook is to be asked: the last in
/// declaration order, and none where the chunk has no entry module.
pub open spec fn startup_module(compilation: &Compilation, chunk: ChunkUkey) -> Option<
    ModuleIdentifier,
> {
    let entries = compilation.chunk_graph.entries_of(chunk);
    if entries.len() > 0 {
        Some(entries.last().0)
    } else {
        None
    }
}

/// What seeding in this format leaves of `state`: a chunk that carries no
/// runtime of its own and has entry modules requires the module-loading
/// function and the function to install itself.
pub open spec fn common_js_requirements(
    compilation: &Compilation,
    state: ChunkRequirements,
) -> Result<ChunkRequirements, Error> {
    let chunks = compilation.chunk_by_ukey@;
    if !chunks.contains_key(state.chunk) {
        Err(Error::MissingChunk(state.chunk))
    } else if chunks[state.chunk].spec_has_runtime(compilation.chunk_group_by_ukey@) {
        Ok(state)
    } else if compilation.chunk_graph.entries_of(state.chunk).len() > 0 {
        Ok(
            ChunkRequirements {
                chunk: state.chunk,
                runtime_requirements: state.runtime_requirements.with(REQUIRE).with(
                    EXTERNAL_INSTALL_CHUNK,
                ),
                runtime_modules: state.runtime_modules,
            },
        )
    } else {
        Ok(state)
    }
}

/// What this format adds to the hash of `chunk`: nothing for a chunk that
/// carries the runtime; else its own name and what the entry modules of the
/// chunk feed.
pub open spec fn common_js_hash_contribution(compilation: &Compilation, chunk: ChunkUkey) -> Result<
    Seq<u8>,
    Error,
> {
    let chunks = compilation.chunk_by_ukey@;
    if !chunks.contains_key(chunk) {
        Err(Error::MissingChunk(chunk))
    } else if chunks[chunk].spec_has_runtime(compilation.chunk_group_by_ukey@) {
        Ok(Seq::empty())
    } else {
        Ok(
            framed_text("CommonJsChunkFormatPlugin"@) + entry_startup_feed(
                compilation,
                compilation.chunk_graph.entries_of(chunk),
                chunk,
            ),
        )
    }
}

/// `source` is how rendering the chunk of `args` in this format ends: in an
/// error where the chunk is unknown or, for a chunk with entry modules, its
/// runtime chunk cannot be found; else in the source of the chunk, with a
/// path of which `is_path` holds for its runtime chunk.
pub open spec fn common_js_rendered(
    args: RenderChunkArgs,
    fragments: ChunkFragments,
    is_path: spec_fn(Chunk, Seq<char>) -> bool,
    source: Result<Option<String>, Error>,
) -> bool {
    let chunks = args.compilation.chunk_by_ukey@;
    let chunk = *args.chunk_ukey;
    if !chunks.contains_key(chunk) {
        source == Err::<Option<String>, Error>(Error::MissingChunk(chunk))
    } else if args.compilation.chunk_graph.entries_of(chunk).len() == 0 {
        &&& source matches Ok(Some(text))
        &&& text@ == chunk_source(args.compilation, chunk, fragments, Seq::empty())
    } else {
        match runtime_chunk_of(args.compilation, chunk) {
            Err(e) => source == Err::<Option<String>, Error>(e),
            Ok(runtime_chunk) => exists|path: Seq<char>|
                {
                    &&& #[trigger] is_path(chunks[runtime_chunk], path)
                    &&& source matches Ok(Some(text))
                    &&& text@ == chunk_source(args.compilation, chunk, fragments, path)
                },
        }
    }
}

/// Appends to `source` the calls that run the entry modules `entries`.
fn push_entry_code(source: &mut String, compilation: &Compilation, entries: &EntryModules)
    ensures
        final(source)@ == old(source)@ + entry_code(compilation, entries@),
{
    let ghost before = source@;
    let mut i: usize = 0;
    proof {
        assert(entries@.take(0) =~= Seq::<(ModuleIdentifier, ChunkGroupUkey)>::empty());
        assert(source@ =~= before + entry_code(compilation, entries@.take(0)));
    }
    while i < entries.len()
        invariant
            i <= entries@.len(),
            source@ == before + entry_code(compilation, entries@.take(i as int)),
        decreases entries@.len() - i,
    {
        let ghost so_far = source@;
        let (module, _group): (ModuleIdentifier, ChunkGroupUkey) = entries.get(i).unwrap();
        if let Some(id) = compilation.chunk_graph.get_module_id(&module) {
            source.append(RuntimeGlobals::require().name());
            source.append("(\"");
            source.append(id.as_str());
            source.append("\");\n");
            proof {
                assert(source@ =~= so_far + entry_invocation(id@));
            }
        }
        proof {
            let next = entries@.take(i + 1);
            assert(next.drop_last() =~= entries@.take(i as int));
            assert(next.last() == entries@[i as int]);
            assert(source@ =~= before + entry_code(compilation, next));
        }
        i = i + 1;
    }
    proof {
        assert(entries@.take(entries@.len() as int) =~= entries@);
    }
}

impl CommonJsChunkFormatPlugin {
    /// The plugin. It has no settings.
    pub fn new() -> (plugin: CommonJsChunkFormatPlugin)
        ensures
            plugin == (CommonJsChunkFormatPlugin {  }),
    {
        CommonJsChunkFormatPlugin {  }
    }

    /// The entry module for which the startup hook is to be asked before the
    /// chunk is rendered: the last one declared. The hook is asked for no
    /// other module, and not at all for a chunk without entry modules.
    pub fn render_startup_module(&self, args: &RenderChunkArgs) -> (module: Option<
        ModuleIdentifier,
    >)
        ensures
            module == startup_module(args.compilation, *args.chunk_ukey),
    {
        match args.compilation.chunk_graph.get_chunk_entry_modules_with_chunk_group_iterable(
            args.chunk_ukey,
        ) {
            Some(entries) => {
                let count: usize = entries.len();
                if count > 0 {
                    match entries.get(count - 1) {
                        Some(last) => Some(last.0),
                        None => None,
                    }
                } else {
                    None
                }
            },
            None => None,
        }
    }
}

impl Plugin for CommonJsChunkFormatPlugin {
    open spec fn spec_name(&self) -> Seq<char> {
        "CommonJsChunkFormatPlugin"@
    }

    fn name(&self) -> (name: &'static str)
        ensures
            name@ == "CommonJsChunkFormatPlugin"@,
    {
        "CommonJsChunkFormatPlugin"
    }

    /// There is nothing to get ready.
    fn apply(&mut self) -> (outcome: Result<(), Error>)
        ensures
            outcome is Ok,
            *final(self) == *old(self),
    {
        Ok(())
    }

    open spec fn additional_requirements(
        &self,
        compilation: &Compilation,
        state: ChunkRequirements,
    ) -> Result<ChunkRequirements, Error> {
        common_js_requirements(compilation, state)
    }

    /// A chunk that carries the runtime supplies it and requires nothing
    /// here. Any other chunk with entry modules requires the module-loading
    /// function and the function to install itself. Fails where the chunk is
    /// unknown.
    fn additional_chunk_runtime_requirements(
        &self,
        compilation: &Compilation,
        args: &mut AdditionalChunkRuntimeRequirementsArgs,
    ) -> (outcome: Result<(), Error>)
        ensures
            hook_outcome(
                common_js_requirements(compilation, old(args)@),
                old(args)@,
                final(args)@,
                outcome,
            ),
            old(args).runtime_requirements.subset_of(final(args).runtime_requirements),
    {
        proof {
            let bits = args.runtime_requirements.bits;
            lemma_subset_reflexive(bits);
            lemma_union_upper_bound(bits, REQUIRE);
            lemma_union_upper_bound(bits | REQUIRE, EXTERNAL_INSTALL_CHUNK);
            lemma_subset_transitive(bits, bits | REQUIRE, (bits | REQUIRE) | EXTERNAL_INSTALL_CHUNK);
        }
        let chunk: &Chunk = match compilation.chunk_by_ukey.get(&args.chunk) {
            Some(chunk) => chunk,
            None => {
                return Err(Error::MissingChunk(args.chunk));
            },
        };
        if chunk.has_runtime(&compilation.chunk_group_by_ukey) {
            return Ok(());
        }
        if compilation.chunk_graph.get_number_of_entry_modules(&args.chunk) > 0 {
            args.runtime_requirements.insert(RuntimeGlobals::require());
            args.runtime_requirements.insert(RuntimeGlobals::external_install_chunk());
        }
        Ok(())
    }

    /// This format has no rule of its own.
    open spec fn tree_requirements(
        &self,
        compilation: &Compilation,
        state: ChunkRequirements,
    ) -> Result<ChunkRequirements, Error> {
        Ok(state)
    }

    fn runtime_requirements_in_tree(
        &self,
        compilation: &Compilation,
        args: &mut AdditionalChunkRuntimeRequirementsArgs,
    ) -> (outcome: Result<(), Error>)
        ensures
            outcome is Ok,
            final(args)@ == old(args)@,
    {
        Ok(())
    }

    proof fn lemma_requirements_grow(&self, compilation: &Compilation, state: ChunkRequirements) {
        let bits = state.runtime_requirements.bits;
        lemma_subset_reflexive(bits);
        lemma_extends_reflexive(state.runtime_modules);
        lemma_union_upper_bound(bits, REQUIRE);
        lemma_union_upper_bound(bits | REQUIRE, EXTERNAL_INSTALL_CHUNK);
        lemma_subset_transitive(bits, bits | REQUIRE, (bits | REQUIRE) | EXTERNAL_INSTALL_CHUNK);
    }

    open spec fn hash_contribution(&self, compilation: &Compilation, chunk: ChunkUkey) -> Result<
        Seq<u8>,
        Error,
    > {
        common_js_hash_contribution(compilation, chunk)
    }

    /// A chunk that carries the runtime is hashed by whoever makes the
    /// runtime. For any other chunk the hash takes in the name of this format
    /// and what the chunk's entry modules feed. Fails where the chunk is
    /// unknown.
    fn js_chunk_hash(&self, args: &JsChunkHashArgs, hasher: &mut Xxh3) -> (outcome: Result<
        (),
        Error,
    >)
        ensures
            hash_outcome(
                common_js_hash_contribution(args.compilation, *args.chunk_ukey),
                *old(hasher),
                *final(hasher),
                outcome,
            ),
    {
        let ghost before = absorbed(*hasher);
        proof {
            assert(before + Seq::<u8>::empty() =~= before);
        }
        let chunk: &Chunk = match args.chunk() {
            Some(chunk) => chunk,
            None => {
                return Err(Error::MissingChunk(*args.chunk_ukey));
            },
        };
        if chunk.has_runtime(&args.compilation.chunk_group_by_ukey) {
            return Ok(());
        }
        let mut input: Vec<u8> = Vec::new();
        push_framed_text(&mut input, self.name());
        match args.compilation.chunk_graph.get_chunk_entry_modules_with_chunk_group_iterable(
            args.chunk_ukey,
        ) {
            Some(entries) => {
                let mut startup: Vec<u8> = entry_startup_hash_input(
                    args.compilation,
                    entries,
                    args.chunk_ukey,
                );
                input.append(&mut startup);
            },
            None => {},
        }
        proof {
            assert(input@ =~= framed_text("CommonJsChunkFormatPlugin"@) + entry_startup_feed(
                args.compilation,
                args.compilation.chunk_graph.entries_of(*args.chunk_ukey),
                *args.chunk_ukey,
            ));
        }
        feed(hasher, input.as_slice());
        Ok(())
    }

    open spec fn rendered(
        &self,
        args: RenderChunkArgs,
        fragments: ChunkFragments,
        is_path: spec_fn(Chunk, Seq<char>) -> bool,
        source: Result<Option<String>, Error>,
    ) -> bool {
        common_js_rendered(args, fragments, is_path, source)
    }

    /// Assembles the source of a chunk from what others rendered of it.
    ///
    /// `fragments.startup` is what the startup hook made for the module that
    /// `render_startup_module` names; `render_filename` is the file-name
    /// template of the output.
    ///
    /// Fails where the chunk is unknown, and, for a chunk with entry modules,
    /// where its runtime chunk cannot be found. The chunk has its id by the
    /// time it is rendered.
    fn render_chunk<F: Fn(FilenameRenderOptions) -> String>(
        &self,
        args: &RenderChunkArgs,
        fragments: &ChunkFragments,
        render_filename: &F,
    ) -> (source: Result<Option<String>, Error>)
        ensures
            common_js_rendered(
                *args,
                *fragments,
                |chunk: Chunk, path: Seq<char>| is_runtime_chunk_path(chunk, render_filename, path),
                source,
            ),
    {
        let compilation: &Compilation = args.compilation;
        let chunk: &Chunk = match args.chunk() {
            Some(chunk) => chunk,
            None => {
                return Err(Error::MissingChunk(*args.chunk_ukey));
            },
        };
        let mut sources: String = String::from_str("exports.ids = ['");
        match &chunk.id {
            Some(id) => {
                sources.append(id.as_str());
            },
            None => {},
        }
        sources.append("'];\n");
        sources.append("exports.modules = ");
        sources.append(fragments.modules.as_str());
        sources.append(";\n");
        let ghost head = sources@;
        proof {
            assert(head =~= id_declaration(fragment_text(chunk.id)) + modules_export(
                fragments.modules@,
            ));
        }
        let registered: Option<&Vec<RuntimeModule>> =
            compilation.chunk_graph.get_chunk_runtime_modules_in_order(args.chunk_ukey);
        let has_runtime_modules: bool = match registered {
            Some(modules) => modules.len() > 0,
            None => false,
        };
        if has_runtime_modules {
            sources.append("exports.runtime = ");
            sources.append(fragments.runtime_modules.as_str());
            sources.append(";\n");
        }
        let ghost runtime = if has_runtime_modules {
            runtime_export(fragments.runtime_modules@)
        } else {
            Seq::<char>::empty()
        };
        proof {
            assert(sources@ =~= head + runtime);
        }
        let entries: Option<&EntryModules> =
            compilation.chunk_graph.get_chunk_entry_modules_with_chunk_group_iterable(
                args.chunk_ukey,
            );
        match entries {
            Some(entries) => {
                if entries.len() > 0 {
                    let path: String = match get_runtime_chunk_path(args, render_filename) {
                        Ok(path) => path,
                        Err(e) => {
                            return Err(e);
                        },
                    };
                    sources.append("\nvar ");
                    sources.append(RuntimeGlobals::require().name());
                    sources.append(" = require('");
                    sources.append(path.as_str());
                    sources.append("');\n");
                    sources.append("\n");
                    sources.append(RuntimeGlobals::external_install_chunk().name());
                    sources.append("(exports)\n");
                    let ghost imported = sources@;
                    proof {
                        assert(imported =~= head + runtime + (runtime_import(path@) + activation()));
                    }
                    push_entry_code(&mut sources, compilation, entries);
                    match &fragments.startup {
                        Some(startup) => {
                            sources.append(startup.as_str());
                        },
                        None => {},
                    }
                    proof {
                        assert(sources@ =~= chunk_source(
                            compilation,
                            *args.chunk_ukey,
                            *fragments,
                            path@,
                        ));
                        let is_path = |chunk: Chunk, path: Seq<char>|
                            is_runtime_chunk_path(chunk, render_filename, path);
                        let runtime_chunk = compilation.chunk_by_ukey@[runtime_chunk_of(
                            compilation,
                            *args.chunk_ukey,
                        )->Ok_0];
                        assert(is_runtime_chunk_path(runtime_chunk, render_filename, path@));
                        assert(is_path(runtime_chunk, path@));
                        assert(common_js_rendered(
                            *args,
                            *fragments,
                            is_path,
                            Ok(Some(sources)),
                        ));
                    }
                } else {
                    proof {
                        assert(sources@ =~= chunk_source(
                            compilation,
                            *args.chunk_ukey,
                            *fragments,
                            Seq::empty(),
                        ));
                    }
                }
            },
            None => {
                proof {
                    assert(sources@ =~= chunk_source(
                        compilation,
                        *args.chunk_ukey,
                        *fragments,
                        Seq::empty(),
                    ));
                }
            },
        }
        Ok(Some(sources))
    }
}

} // verus!

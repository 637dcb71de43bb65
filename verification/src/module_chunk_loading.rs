//! The chunk-loading rule: which capabilities and runtime modules a chunk
//! needs once any of its flags asks for chunk loading.

use crate::compilation::{Chunk, ChunkUkey, Compilation};
use crate::error::Error;
use crate::filename::FilenameRenderOptions;
use crate::hasher::absorbed;
use crate::plugin::{
    grows_to, hook_outcome, AdditionalChunkRuntimeRequirementsArgs, ChunkFragments,
    ChunkRequirements, JsChunkHashArgs, Plugin, RenderChunkArgs,
};
use crate::runtime_globals::{
    bits_subset, lemma_subset_reflexive, lemma_subset_transitive, lemma_union_upper_bound,
    RuntimeGlobals, BASE_URI, ENSURE_CHUNK_HANDLERS, EXTERNAL_INSTALL_CHUNK,
    GET_CHUNK_SCRIPT_FILENAME, HAS_OWN_PROPERTY, MODULE_FACTORIES_ADD_ONLY, ON_CHUNKS_LOADED,
};
use crate::runtime_module::{
    add_runtime_module, lemma_extends_reflexive, lemma_extends_transitive, lemma_place_of,
    lemma_registered_again,
    lemma_registered_extends, lemma_registered_idempotent, place_of, registered, same_kind,
    RuntimeModule,
};
use vstd::prelude::*;
use xxhash_rust::xxh3::Xxh3;

verus! {

broadcast use vstd::std_specs::hash::group_hash_axioms;

/// The plugin that makes a chunk able to load further chunks.
#[derive(Debug)]
pub struct ModuleChunkLoadingPlugin {}

/// One of the flags that ask for chunk loading is set.
pub open spec fn has_chunk_loading(flags: RuntimeGlobals) -> bool {
    flags.has(ENSURE_CHUNK_HANDLERS) || flags.has(EXTERNAL_INSTALL_CHUNK) || flags.has(
        ON_CHUNKS_LOADED,
    ) || flags.has(BASE_URI)
}

/// The flags that the rule leaves where chunk loading is asked for: those that
/// were there, the file-name function where chunk handlers are wanted, and the
/// two helpers that the loading code itself uses.
pub open spec fn chunk_loading_flags(flags: RuntimeGlobals) -> RuntimeGlobals {
    let with_filename = if flags.has(ENSURE_CHUNK_HANDLERS) {
        flags.with(GET_CHUNK_SCRIPT_FILENAME)
    } else {
        flags
    };
    with_filename.with(MODULE_FACTORIES_ADD_ONLY).with(HAS_OWN_PROPERTY)
}

/// The runtime modules that the rule leaves where chunk loading is asked for:
/// the module that exports the module-loading function where a chunk installs
/// itself from outside, and last the loading module, made with the flags that
/// the rule leaves.
pub open spec fn chunk_loading_modules(
    flags: RuntimeGlobals,
    modules: Seq<RuntimeModule>,
) -> Seq<RuntimeModule> {
    let with_export = if flags.has(EXTERNAL_INSTALL_CHUNK) {
        registered(modules, RuntimeModule::ExportWebpackRequire)
    } else {
        modules
    };
    registered(with_export, RuntimeModule::ModuleChunkLoading(chunk_loading_flags(flags)))
}

/// What the chunk-loading rule leaves of `state`.
pub open spec fn chunk_loading_rule(compilation: &Compilation, state: ChunkRequirements) -> Result<
    ChunkRequirements,
    Error,
> {
    if !has_chunk_loading(state.runtime_requirements) {
        Ok(state)
    } else if !compilation.chunk_by_ukey@.contains_key(state.chunk) {
        Err(Error::MissingChunk(state.chunk))
    } else {
        Ok(
            ChunkRequirements {
                chunk: state.chunk,
                runtime_requirements: chunk_loading_flags(state.runtime_requirements),
                runtime_modules: chunk_loading_modules(
                    state.runtime_requirements,
                    state.runtime_modules,
                ),
            },
        )
    }
}

/// The rule takes nothing away.
pub proof fn lemma_chunk_loading_rule_grows(compilation: &Compilation, state: ChunkRequirements)
    ensures
        chunk_loading_rule(compilation, state) matches Ok(next) ==> grows_to(state, next),
{
    let flags = state.runtime_requirements;
    let bits = flags.bits;
    let first = if flags.has(ENSURE_CHUNK_HANDLERS) {
        bits | GET_CHUNK_SCRIPT_FILENAME
    } else {
        bits
    };
    lemma_union_upper_bound(bits, GET_CHUNK_SCRIPT_FILENAME);
    lemma_subset_reflexive(bits);
    lemma_union_upper_bound(first, MODULE_FACTORIES_ADD_ONLY);
    lemma_union_upper_bound(first | MODULE_FACTORIES_ADD_ONLY, HAS_OWN_PROPERTY);
    lemma_subset_transitive(bits, first, first | MODULE_FACTORIES_ADD_ONLY);
    lemma_subset_transitive(
        bits,
        first | MODULE_FACTORIES_ADD_ONLY,
        (first | MODULE_FACTORIES_ADD_ONLY) | HAS_OWN_PROPERTY,
    );
    let modules = state.runtime_modules;
    let with_export = if flags.has(EXTERNAL_INSTALL_CHUNK) {
        registered(modules, RuntimeModule::ExportWebpackRequire)
    } else {
        modules
    };
    lemma_registered_extends(modules, RuntimeModule::ExportWebpackRequire);
    lemma_extends_reflexive(modules);
    let last = RuntimeModule::ModuleChunkLoading(chunk_loading_flags(flags));
    lemma_registered_extends(with_export, last);
    lemma_extends_transitive(modules, with_export, registered(with_export, last));
}

/// What the flags of chunk loading are made of does not touch the flags that
/// ask for it, and making them twice is making them once.
proof fn lemma_chunk_loading_flags_settle(flags: RuntimeGlobals)
    ensures
        chunk_loading_flags(flags).has(ENSURE_CHUNK_HANDLERS) <==> flags.has(
            ENSURE_CHUNK_HANDLERS,
        ),
        chunk_loading_flags(flags).has(EXTERNAL_INSTALL_CHUNK) <==> flags.has(
            EXTERNAL_INSTALL_CHUNK,
        ),
        has_chunk_loading(flags) ==> has_chunk_loading(chunk_loading_flags(flags)),
        chunk_loading_flags(chunk_loading_flags(flags)) == chunk_loading_flags(flags),
{
    let b = flags.bits;
    assert forall|mask: u64|
        mask == ENSURE_CHUNK_HANDLERS || mask == EXTERNAL_INSTALL_CHUNK || mask == ON_CHUNKS_LOADED
            || mask == BASE_URI implies (bits_subset(mask, b) <==> bits_subset(
        mask,
        (b | MODULE_FACTORIES_ADD_ONLY) | HAS_OWN_PROPERTY,
    )) && (bits_subset(mask, b) <==> bits_subset(
        mask,
        ((b | GET_CHUNK_SCRIPT_FILENAME) | MODULE_FACTORIES_ADD_ONLY) | HAS_OWN_PROPERTY,
    )) by {
        assert(((b | 0x20) | 0x40) & mask == mask <==> b & mask == mask) by (bit_vector)
            requires
                mask == 0x02 || mask == 0x04 || mask == 0x08 || mask == 0x10,
        ;
        assert((((b | 0x80) | 0x20) | 0x40) & mask == mask <==> b & mask == mask) by (bit_vector)
            requires
                mask == 0x02 || mask == 0x04 || mask == 0x08 || mask == 0x10,
        ;
    }
    assert((((((b | 0x80) | 0x20) | 0x40) | 0x80) | 0x20) | 0x40 == ((b | 0x80) | 0x20) | 0x40)
        by (bit_vector);
    assert((((b | 0x20) | 0x40) | 0x20) | 0x40 == (b | 0x20) | 0x40) by (bit_vector);
}

/// Idempotence of the rule: applied to what it left, the rule adds no flag
/// and registers no runtime module a second time.
pub proof fn lemma_chunk_loading_rule_idempotent(
    compilation: &Compilation,
    state: ChunkRequirements,
)
    ensures
        chunk_loading_rule(compilation, state) matches Ok(next) ==> chunk_loading_rule(
            compilation,
            next,
        ) == Ok::<ChunkRequirements, Error>(next),
{
    let flags = state.runtime_requirements;
    if has_chunk_loading(flags) && compilation.chunk_by_ukey@.contains_key(state.chunk) {
        lemma_chunk_loading_flags_settle(flags);
        let settled = chunk_loading_flags(flags);
        let modules = state.runtime_modules;
        let export = RuntimeModule::ExportWebpackRequire;
        let loading = RuntimeModule::ModuleChunkLoading(settled);
        let with_export = if flags.has(EXTERNAL_INSTALL_CHUNK) {
            registered(modules, export)
        } else {
            modules
        };
        let once = registered(with_export, loading);
        assert(once == chunk_loading_modules(flags, modules));
        lemma_registered_idempotent(with_export, loading);
        if flags.has(EXTERNAL_INSTALL_CHUNK) {
            lemma_place_of(modules, export);
            lemma_registered_extends(modules, export);
            lemma_place_of(with_export, export);
            lemma_registered_extends(with_export, loading);
            let at = place_of(with_export, export);
            assert(same_kind(with_export[at], once[at]));
            assert forall|i: int| 0 <= i < at implies !same_kind(#[trigger] once[i], export) by {
                assert(same_kind(with_export[i], once[i]));
                assert(!same_kind(with_export[i], export));
            }
            lemma_registered_again(once, export, at);
        }
        assert(chunk_loading_modules(settled, once) == once);
    }
}

impl ModuleChunkLoadingPlugin {
    /// The plugin. It has no settings.
    pub fn new() -> (plugin: ModuleChunkLoadingPlugin)
        ensures
            plugin == (ModuleChunkLoadingPlugin {  }),
    {
        ModuleChunkLoadingPlugin {  }
    }
}

impl Plugin for ModuleChunkLoadingPlugin {
    open spec fn spec_name(&self) -> Seq<char> {
        "ModuleChunkLoadingPlugin"@
    }

    fn name(&self) -> (name: &'static str)
        ensures
            name@ == "ModuleChunkLoadingPlugin"@,
    {
        "ModuleChunkLoadingPlugin"
    }

    /// There is nothing to get ready.
    fn apply(&mut self) -> (outcome: Result<(), Error>)
        ensures
            outcome is Ok,
            *final(self) == *old(self),
    {
        Ok(())
    }

    /// This plugin seeds nothing.
    open spec fn additional_requirements(
        &self,
        compilation: &Compilation,
        state: ChunkRequirements,
    ) -> Result<ChunkRequirements, Error> {
        Ok(state)
    }

    fn additional_chunk_runtime_requirements(
        &self,
        compilation: &Compilation,
        args: &mut AdditionalChunkRuntimeRequirementsArgs,
    ) -> (outcome: Result<(), Error>)
        ensures
            outcome is Ok,
            final(args)@ == old(args)@,
    {
        Ok(())
    }

    open spec fn tree_requirements(
        &self,
        compilation: &Compilation,
        state: ChunkRequirements,
    ) -> Result<ChunkRequirements, Error> {
        chunk_loading_rule(compilation, state)
    }

    /// The chunk-loading rule. Where one of the flags for chunk handlers,
    /// outside installation, deferred startup or the base URI is set, the
    /// chunk gets the flags and the runtime modules of chunk loading; the
    /// loading module is registered last, with the flags as the rule leaves
    /// them. Fails where that is due and the chunk is unknown.
    fn runtime_requirements_in_tree(
        &self,
        compilation: &Compilation,
        args: &mut AdditionalChunkRuntimeRequirementsArgs,
    ) -> (outcome: Result<(), Error>)
        ensures
            hook_outcome(
                chunk_loading_rule(compilation, old(args)@),
                old(args)@,
                final(args)@,
                outcome,
            ),
            grows_to(old(args)@, final(args)@),
    {
        proof {
            lemma_chunk_loading_rule_grows(compilation, args@);
            lemma_subset_reflexive(args.runtime_requirements.bits);
            lemma_extends_reflexive(args.runtime_modules@);
        }
        let flags: RuntimeGlobals = args.runtime_requirements;
        let ensure_chunk_handlers: bool = flags.contains(RuntimeGlobals::ensure_chunk_handlers());
        let external_install_chunk: bool = flags.contains(RuntimeGlobals::external_install_chunk());
        let has_chunk_loading: bool = ensure_chunk_handlers || external_install_chunk
            || flags.contains(RuntimeGlobals::on_chunks_loaded()) || flags.contains(
            RuntimeGlobals::base_uri(),
        );
        if !has_chunk_loading {
            return Ok(());
        }
        if compilation.chunk_by_ukey.get(&args.chunk).is_none() {
            return Err(Error::MissingChunk(args.chunk));
        }
        if ensure_chunk_handlers {
            args.runtime_requirements.insert(RuntimeGlobals::get_chunk_script_filename());
        }
        if external_install_chunk {
            add_runtime_module(&mut args.runtime_modules, RuntimeModule::ExportWebpackRequire);
        }
        args.runtime_requirements.insert(RuntimeGlobals::module_factories_add_only());
        args.runtime_requirements.insert(RuntimeGlobals::has_own_property());
        add_runtime_module(
            &mut args.runtime_modules,
            RuntimeModule::ModuleChunkLoading(args.runtime_requirements),
        );
        Ok(())
    }

    proof fn lemma_requirements_grow(&self, compilation: &Compilation, state: ChunkRequirements) {
        lemma_chunk_loading_rule_grows(compilation, state);
        lemma_subset_reflexive(state.runtime_requirements.bits);
        lemma_extends_reflexive(state.runtime_modules);
    }

    /// This plugin adds nothing to the hash.
    open spec fn hash_contribution(&self, compilation: &Compilation, chunk: ChunkUkey) -> Result<
        Seq<u8>,
        Error,
    > {
        Ok(Seq::empty())
    }

    fn js_chunk_hash(&self, args: &JsChunkHashArgs, hasher: &mut Xxh3) -> (outcome: Result<
        (),
        Error,
    >)
        ensures
            outcome is Ok,
            *final(hasher) == *old(hasher),
            absorbed(*final(hasher)) == absorbed(*old(hasher)),
    {
        proof {
            assert(absorbed(*hasher) + Seq::<u8>::empty() =~= absorbed(*hasher));
        }
        Ok(())
    }

    /// This plugin is no chunk format: it renders nothing.
    open spec fn rendered(
        &self,
        args: RenderChunkArgs,
        fragments: ChunkFragments,
        is_path: spec_fn(Chunk, Seq<char>) -> bool,
        source: Result<Option<String>, Error>,
    ) -> bool {
        source == Ok::<Option<String>, Error>(None)
    }

    fn render_chunk<F: Fn(FilenameRenderOptions) -> String>(
        &self,
        args: &RenderChunkArgs,
        fragments: &ChunkFragments,
        render_filename: &F,
    ) -> (source: Result<Option<String>, Error>)
        ensures
            source == Ok::<Option<String>, Error>(None),
    {
        Ok(None)
    }
}

} // verus!

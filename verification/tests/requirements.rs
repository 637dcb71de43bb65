use chunk_runtime::builtin::BuiltinPlugin;
use chunk_runtime::common_js_chunk_format::CommonJsChunkFormatPlugin;
use chunk_runtime::compilation::{
    Chunk, ChunkByUkey, ChunkGraph, ChunkGroup, ChunkGroupByUkey, Compilation, EntryModules,
};
use chunk_runtime::error::Error;
use chunk_runtime::module_chunk_loading::ModuleChunkLoadingPlugin;
use chunk_runtime::plugin::{AdditionalChunkRuntimeRequirementsArgs, Plugin};
use chunk_runtime::plugin_driver::{
    apply_tree_rules, resolve_runtime_requirements, resolve_runtime_requirements_within, MAX_PASSES,
};
use chunk_runtime::runtime_globals::RuntimeGlobals;
use chunk_runtime::runtime_module::RuntimeModule;
use std::collections::HashMap;

fn chunk(ukey: usize, id: &str, groups: Vec<usize>) -> Chunk {
    Chunk { ukey, name: None, id: Some(id.to_string()), hash: String::new(), groups }
}

fn compilation_with_chunk(ukey: usize) -> Compilation {
    let mut chunk_by_ukey = ChunkByUkey::new();
    chunk_by_ukey.insert(ukey, chunk(ukey, "main", vec![]));
    Compilation {
        chunk_by_ukey,
        chunk_group_by_ukey: ChunkGroupByUkey::new(),
        chunk_graph: ChunkGraph {
            entry_modules: HashMap::new(),
            runtime_modules: HashMap::new(),
            module_ids: HashMap::new(),
        },
    }
}

fn args(chunk: usize, flags: RuntimeGlobals) -> AdditionalChunkRuntimeRequirementsArgs {
    AdditionalChunkRuntimeRequirementsArgs {
        chunk,
        runtime_requirements: flags,
        runtime_modules: Vec::new(),
    }
}

fn count_loading(modules: &[RuntimeModule]) -> usize {
    modules.iter().filter(|m| matches!(m, RuntimeModule::ModuleChunkLoading(_))).count()
}

#[test]
fn ensure_chunk_handlers_settles_with_loading_module() {
    let compilation = compilation_with_chunk(1);
    let plugins = vec![ModuleChunkLoadingPlugin::new()];
    let mut requirements = args(1, RuntimeGlobals::ensure_chunk_handlers());
    assert_eq!(resolve_runtime_requirements(&plugins, &compilation, &mut requirements), Ok(()));
    let flags = requirements.runtime_requirements;
    assert!(flags.contains(RuntimeGlobals::ensure_chunk_handlers()));
    assert!(flags.contains(RuntimeGlobals::get_chunk_script_filename()));
    assert!(flags.contains(RuntimeGlobals::module_factories_add_only()));
    assert!(flags.contains(RuntimeGlobals::has_own_property()));
    assert_eq!(flags.bits(), 0x02 | 0x80 | 0x20 | 0x40);
    assert_eq!(count_loading(&requirements.runtime_modules), 1);
    assert_eq!(requirements.runtime_modules, vec![RuntimeModule::ModuleChunkLoading(flags)]);
}

#[test]
fn external_install_chunk_registers_export_module_first() {
    let compilation = compilation_with_chunk(1);
    let plugins = vec![ModuleChunkLoadingPlugin::new()];
    let mut requirements = args(1, RuntimeGlobals::external_install_chunk());
    assert_eq!(resolve_runtime_requirements(&plugins, &compilation, &mut requirements), Ok(()));
    let flags = requirements.runtime_requirements;
    assert_eq!(flags.bits(), 0x04 | 0x20 | 0x40);
    assert_eq!(
        requirements.runtime_modules,
        vec![RuntimeModule::ExportWebpackRequire, RuntimeModule::ModuleChunkLoading(flags)]
    );
}

#[test]
fn on_chunks_loaded_and_base_uri_only_mark_loading() {
    let compilation = compilation_with_chunk(1);
    let plugin = ModuleChunkLoadingPlugin::new();
    for seed in [RuntimeGlobals::on_chunks_loaded(), RuntimeGlobals::base_uri()] {
        let mut requirements = args(1, seed);
        assert_eq!(plugin.runtime_requirements_in_tree(&compilation, &mut requirements), Ok(()));
        let flags = requirements.runtime_requirements;
        assert_eq!(flags.bits(), seed.bits() | 0x20 | 0x40);
        assert_eq!(requirements.runtime_modules, vec![RuntimeModule::ModuleChunkLoading(flags)]);
    }
}

#[test]
fn rule_without_trigger_changes_nothing() {
    let compilation = compilation_with_chunk(1);
    let plugins = vec![ModuleChunkLoadingPlugin::new()];
    let mut requirements = args(7, RuntimeGlobals::require());
    assert_eq!(resolve_runtime_requirements(&plugins, &compilation, &mut requirements), Ok(()));
    assert_eq!(requirements.runtime_requirements, RuntimeGlobals::require());
    assert!(requirements.runtime_modules.is_empty());
}

#[test]
fn rule_fails_for_unknown_chunk() {
    let compilation = compilation_with_chunk(1);
    let plugins = vec![ModuleChunkLoadingPlugin::new()];
    let mut requirements = args(2, RuntimeGlobals::base_uri());
    assert_eq!(
        resolve_runtime_requirements(&plugins, &compilation, &mut requirements),
        Err(Error::MissingChunk(2))
    );
    assert_eq!(requirements.runtime_requirements, RuntimeGlobals::base_uri());
    assert!(requirements.runtime_modules.is_empty());
}

#[test]
fn resolving_again_changes_nothing() {
    let compilation = compilation_with_chunk(1);
    let plugins = vec![ModuleChunkLoadingPlugin::new()];
    let seed = RuntimeGlobals::ensure_chunk_handlers().union(RuntimeGlobals::external_install_chunk());
    let mut requirements = args(1, seed);
    assert_eq!(resolve_runtime_requirements(&plugins, &compilation, &mut requirements), Ok(()));
    let flags = requirements.runtime_requirements;
    let modules = requirements.runtime_modules.clone();
    assert_eq!(resolve_runtime_requirements(&plugins, &compilation, &mut requirements), Ok(()));
    assert_eq!(requirements.runtime_requirements, flags);
    assert_eq!(requirements.runtime_modules, modules);
    assert_eq!(apply_tree_rules(&plugins, &compilation, &mut requirements), Ok(()));
    assert_eq!(requirements.runtime_requirements, flags);
    assert_eq!(requirements.runtime_modules, modules);
    assert_eq!(count_loading(&modules), 1);
}

#[test]
fn resolution_keeps_every_seeded_flag() {
    let compilation = compilation_with_chunk(1);
    let plugins = vec![ModuleChunkLoadingPlugin::new()];
    for bits in [0u64, 0x01, 0x02, 0x04, 0x08, 0x10, 0xff, 0xf000_0000_0000_0013] {
        let seed = RuntimeGlobals::from_bits(bits);
        let mut requirements = args(1, seed);
        assert_eq!(resolve_runtime_requirements(&plugins, &compilation, &mut requirements), Ok(()));
        assert!(requirements.runtime_requirements.contains(seed));
    }
}

#[test]
fn passes_that_all_change_something_overrun() {
    let compilation = compilation_with_chunk(1);
    let plugins = vec![ModuleChunkLoadingPlugin::new()];
    let mut requirements = args(1, RuntimeGlobals::ensure_chunk_handlers());
    assert_eq!(
        resolve_runtime_requirements_within(&plugins, &compilation, &mut requirements, 1),
        Err(Error::FixedPointOverrun(1))
    );
    assert!(requirements.runtime_requirements.contains(RuntimeGlobals::ensure_chunk_handlers()));
    let mut untouched = args(1, RuntimeGlobals::require());
    assert_eq!(
        resolve_runtime_requirements_within(&plugins, &compilation, &mut untouched, 0),
        Err(Error::FixedPointOverrun(1))
    );
    assert_eq!(untouched.runtime_requirements, RuntimeGlobals::require());
    let mut settled = args(1, RuntimeGlobals::ensure_chunk_handlers());
    assert_eq!(
        resolve_runtime_requirements_within(&plugins, &compilation, &mut settled, 2),
        Ok(())
    );
    assert_eq!(MAX_PASSES, 128);
}

#[test]
fn common_js_seeds_entry_chunk_without_runtime() {
    let mut compilation = compilation_with_chunk(1);
    let mut entries = EntryModules::new();
    entries.insert(100, 5);
    compilation.chunk_graph.entry_modules.insert(1, entries);
    compilation.chunk_group_by_ukey.insert(
        5,
        ChunkGroup { ukey: 5, chunks: vec![1, 2], ancestors: vec![], initial: true, runtime_chunk: 2 },
    );
    compilation.chunk_by_ukey.insert(1, chunk(1, "main", vec![5]));
    compilation.chunk_by_ukey.insert(2, chunk(2, "runtime", vec![5]));
    let plugin = CommonJsChunkFormatPlugin::new();

    let mut requirements = args(1, RuntimeGlobals::base_uri());
    assert_eq!(plugin.additional_chunk_runtime_requirements(&compilation, &mut requirements), Ok(()));
    assert_eq!(requirements.runtime_requirements.bits(), 0x10 | 0x01 | 0x04);

    let mut runtime = args(2, RuntimeGlobals::base_uri());
    assert_eq!(plugin.additional_chunk_runtime_requirements(&compilation, &mut runtime), Ok(()));
    assert_eq!(runtime.runtime_requirements, RuntimeGlobals::base_uri());

    let mut unknown = args(3, RuntimeGlobals::empty());
    assert_eq!(
        plugin.additional_chunk_runtime_requirements(&compilation, &mut unknown),
        Err(Error::MissingChunk(3))
    );
    assert!(unknown.runtime_requirements.is_empty());
}

#[test]
fn common_js_seeds_nothing_without_entry_modules() {
    let compilation = compilation_with_chunk(1);
    let plugin = CommonJsChunkFormatPlugin::new();
    let mut requirements = args(1, RuntimeGlobals::empty());
    assert_eq!(plugin.additional_chunk_runtime_requirements(&compilation, &mut requirements), Ok(()));
    assert!(requirements.runtime_requirements.is_empty());
    assert_eq!(plugin.runtime_requirements_in_tree(&compilation, &mut requirements), Ok(()));
    assert!(requirements.runtime_requirements.is_empty());
    assert_eq!(plugin.name(), "CommonJsChunkFormatPlugin");
    assert_eq!(ModuleChunkLoadingPlugin::new().name(), "ModuleChunkLoadingPlugin");
}

#[test]
fn builtin_plugins_resolve_an_entry_chunk() {
    let mut compilation = compilation_with_chunk(1);
    let mut entries = EntryModules::new();
    entries.insert(100, 5);
    compilation.chunk_graph.entry_modules.insert(1, entries);
    let plugins = vec![
        BuiltinPlugin::CommonJsChunkFormat(CommonJsChunkFormatPlugin::new()),
        BuiltinPlugin::ModuleChunkLoading(ModuleChunkLoadingPlugin::new()),
    ];
    let mut requirements = args(1, RuntimeGlobals::empty());
    for plugin in plugins.iter() {
        assert_eq!(plugin.additional_chunk_runtime_requirements(&compilation, &mut requirements), Ok(()));
    }
    assert_eq!(requirements.runtime_requirements.bits(), 0x01 | 0x04);
    assert_eq!(resolve_runtime_requirements(&plugins, &compilation, &mut requirements), Ok(()));
    let flags = requirements.runtime_requirements;
    assert_eq!(flags.bits(), 0x01 | 0x04 | 0x20 | 0x40);
    assert_eq!(
        requirements.runtime_modules,
        vec![RuntimeModule::ExportWebpackRequire, RuntimeModule::ModuleChunkLoading(flags)]
    );
    assert_eq!(plugins[0].name(), "CommonJsChunkFormatPlugin");
    assert_eq!(plugins[1].name(), "ModuleChunkLoadingPlugin");
}

#[test]
fn plugins_have_nothing_to_get_ready() {
    assert_eq!(CommonJsChunkFormatPlugin::new().apply(), Ok(()));
    assert_eq!(ModuleChunkLoadingPlugin::new().apply(), Ok(()));
    assert_eq!(BuiltinPlugin::ModuleChunkLoading(ModuleChunkLoadingPlugin::new()).apply(), Ok(()));
}

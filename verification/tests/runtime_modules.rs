use chunk_runtime::runtime_globals::RuntimeGlobals;
use chunk_runtime::runtime_module::{add_runtime_module, is_same_kind, same_modules, RuntimeModule};

#[test]
fn a_kind_is_registered_once() {
    let mut modules = Vec::new();
    add_runtime_module(&mut modules, RuntimeModule::ExportWebpackRequire);
    add_runtime_module(&mut modules, RuntimeModule::ExportWebpackRequire);
    assert_eq!(modules, vec![RuntimeModule::ExportWebpackRequire]);
}

#[test]
fn registration_order_is_kept_and_a_second_module_replaces_the_first() {
    let first = RuntimeGlobals::base_uri();
    let second = RuntimeGlobals::base_uri().union(RuntimeGlobals::has_own_property());
    let mut modules = Vec::new();
    add_runtime_module(&mut modules, RuntimeModule::ModuleChunkLoading(first));
    add_runtime_module(&mut modules, RuntimeModule::ExportWebpackRequire);
    add_runtime_module(&mut modules, RuntimeModule::ModuleChunkLoading(second));
    assert_eq!(
        modules,
        vec![RuntimeModule::ModuleChunkLoading(second), RuntimeModule::ExportWebpackRequire]
    );
}

#[test]
fn kinds_ignore_what_a_module_was_made_with() {
    let a = RuntimeModule::ModuleChunkLoading(RuntimeGlobals::require());
    let b = RuntimeModule::ModuleChunkLoading(RuntimeGlobals::empty());
    assert!(is_same_kind(&a, &b));
    assert!(is_same_kind(&RuntimeModule::ExportWebpackRequire, &RuntimeModule::ExportWebpackRequire));
    assert!(!is_same_kind(&a, &RuntimeModule::ExportWebpackRequire));
    assert!(!is_same_kind(&RuntimeModule::ExportWebpackRequire, &b));
}

#[test]
fn registries_are_compared_place_by_place() {
    let a = RuntimeModule::ModuleChunkLoading(RuntimeGlobals::require());
    let b = RuntimeModule::ModuleChunkLoading(RuntimeGlobals::empty());
    let e = RuntimeModule::ExportWebpackRequire;
    assert!(same_modules(&vec![], &vec![]));
    assert!(same_modules(&vec![e, a], &vec![e, a]));
    assert!(!same_modules(&vec![e, a], &vec![a, e]));
    assert!(!same_modules(&vec![e, a], &vec![e, b]));
    assert!(!same_modules(&vec![e], &vec![e, a]));
}

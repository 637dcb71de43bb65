use chunk_runtime::compilation::{
    Chunk, ChunkGraph, ChunkGroup, ChunkGroupByUkey, EntryModules,
};
use chunk_runtime::runtime_module::RuntimeModule;
use std::collections::HashMap;

fn listed(entries: &EntryModules) -> Vec<(usize, usize)> {
    (0..entries.len()).map(|i| entries.get(i).unwrap()).collect()
}

#[test]
fn entry_modules_keep_declaration_order() {
    let mut entries = EntryModules::new();
    assert!(entries.is_empty());
    entries.insert(30, 1);
    entries.insert(10, 2);
    entries.insert(20, 1);
    assert_eq!(entries.len(), 3);
    assert!(!entries.is_empty());
    assert_eq!(listed(&entries), vec![(30, 1), (10, 2), (20, 1)]);
    assert_eq!(entries.get(3), None);
}

#[test]
fn a_module_declared_again_keeps_its_place() {
    let mut entries = EntryModules::new();
    entries.insert(30, 1);
    entries.insert(10, 2);
    entries.insert(30, 7);
    assert_eq!(listed(&entries), vec![(30, 7), (10, 2)]);
}

#[test]
fn chunk_graph_answers_for_unknown_chunks() {
    let mut graph = ChunkGraph {
        entry_modules: HashMap::new(),
        runtime_modules: HashMap::new(),
        module_ids: HashMap::new(),
    };
    assert_eq!(graph.get_number_of_entry_modules(&1), 0);
    assert!(graph.get_chunk_entry_modules_with_chunk_group_iterable(&1).is_none());
    assert!(graph.get_chunk_runtime_modules_in_order(&1).is_none());
    assert_eq!(graph.get_module_id(&5), None);
    let mut entries = EntryModules::new();
    entries.insert(5, 9);
    graph.entry_modules.insert(1, entries);
    graph.runtime_modules.insert(1, vec![RuntimeModule::ExportWebpackRequire]);
    graph.module_ids.insert(5, "five".to_string());
    assert_eq!(graph.get_number_of_entry_modules(&1), 1);
    assert_eq!(graph.get_chunk_entry_modules_with_chunk_group_iterable(&1).unwrap().get(0), Some((5, 9)));
    assert_eq!(
        graph.get_chunk_runtime_modules_in_order(&1),
        Some(&vec![RuntimeModule::ExportWebpackRequire])
    );
    assert_eq!(graph.get_module_id(&5), Some(&"five".to_string()));
    let chunk = Chunk { ukey: 1, name: None, id: None, hash: String::new(), groups: vec![] };
    assert!(chunk.has_entry_module(&graph));
    let other = Chunk { ukey: 2, name: None, id: None, hash: String::new(), groups: vec![] };
    assert!(!other.has_entry_module(&graph));
}

#[test]
fn a_chunk_has_a_runtime_when_an_initial_group_of_its_own_names_it() {
    let mut groups = ChunkGroupByUkey::new();
    groups.insert(1, ChunkGroup { ukey: 1, chunks: vec![10, 11], ancestors: vec![], initial: true, runtime_chunk: 11 });
    groups.insert(2, ChunkGroup { ukey: 2, chunks: vec![12], ancestors: vec![1], initial: false, runtime_chunk: 12 });
    let chunk = |ukey: usize, groups: Vec<usize>| Chunk { ukey, name: None, id: None, hash: String::new(), groups };
    assert!(chunk(11, vec![1]).has_runtime(&groups));
    assert!(!chunk(10, vec![1]).has_runtime(&groups));
    assert!(!chunk(12, vec![2]).has_runtime(&groups));
    assert!(!chunk(11, vec![]).has_runtime(&groups));
    assert!(!chunk(11, vec![3]).has_runtime(&groups));
    assert!(chunk(11, vec![3, 2, 1]).has_runtime(&groups));
    assert!(groups[&1].is_initial());
    assert_eq!(groups[&2].get_runtime_chunk(), 12);
}

#[test]
fn the_template_name_of_a_chunk_is_its_name_or_else_its_id() {
    let chunk = |name: Option<&str>, id: Option<&str>| Chunk {
        ukey: 1,
        name: name.map(|s| s.to_string()),
        id: id.map(|s| s.to_string()),
        hash: "abc123".to_string(),
        groups: vec![],
    };
    assert_eq!(chunk(Some("main"), Some("0")).name_for_filename_template(), Some("main".to_string()));
    assert_eq!(chunk(None, Some("0")).name_for_filename_template(), Some("0".to_string()));
    assert_eq!(chunk(Some("main"), None).name_for_filename_template(), Some("main".to_string()));
    assert_eq!(chunk(None, None).name_for_filename_template(), None);
    assert_eq!(chunk(None, None).get_render_hash(), "abc123");
}

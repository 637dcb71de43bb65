use chunk_runtime::compilation::{ChunkGroup, ChunkGroupByUkey};
use chunk_runtime::helpers::get_all_chunks;

fn group(
    ukey: usize,
    chunks: Vec<usize>,
    ancestors: Vec<usize>,
    initial: bool,
    runtime_chunk: usize,
) -> ChunkGroup {
    ChunkGroup { ukey, chunks, ancestors, initial, runtime_chunk }
}

fn sorted(set: &rustc_hash::FxHashSet<usize>) -> Vec<usize> {
    let mut keys: Vec<usize> = set.iter().copied().collect();
    keys.sort();
    keys
}

#[test]
fn initial_ancestor_is_collected_and_other_is_skipped() {
    let mut groups = ChunkGroupByUkey::new();
    groups.insert(1, group(1, vec![10, 11], vec![2, 3], true, 99));
    groups.insert(2, group(2, vec![20, 21], vec![], true, 99));
    groups.insert(3, group(3, vec![30, 31], vec![], false, 99));
    let chunks = get_all_chunks(&1, &10, &99, &groups);
    assert_eq!(sorted(&chunks), vec![11, 20, 21]);
}

#[test]
fn excluded_chunks_never_appear() {
    let mut groups = ChunkGroupByUkey::new();
    groups.insert(1, group(1, vec![10, 11, 12], vec![2], true, 12));
    groups.insert(2, group(2, vec![10, 12, 20], vec![], true, 12));
    let chunks = get_all_chunks(&1, &10, &12, &groups);
    assert_eq!(sorted(&chunks), vec![11, 20]);
    assert!(!chunks.contains(&10));
    assert!(!chunks.contains(&12));
    let same = get_all_chunks(&1, &11, &11, &groups);
    assert_eq!(sorted(&same), vec![10, 12, 20]);
}

#[test]
fn unknown_entry_point_reaches_nothing() {
    let mut groups = ChunkGroupByUkey::new();
    groups.insert(1, group(1, vec![10], vec![], true, 10));
    assert!(get_all_chunks(&2, &0, &0, &groups).is_empty());
    assert!(get_all_chunks(&1, &0, &0, &ChunkGroupByUkey::new()).is_empty());
}

#[test]
fn entry_point_is_collected_whether_initial_or_not() {
    let mut groups = ChunkGroupByUkey::new();
    groups.insert(1, group(1, vec![10, 11], vec![], false, 11));
    assert_eq!(sorted(&get_all_chunks(&1, &0, &11, &groups)), vec![10]);
}

#[test]
fn ancestors_of_initial_ancestors_are_followed() {
    let mut groups = ChunkGroupByUkey::new();
    groups.insert(1, group(1, vec![10], vec![2], true, 0));
    groups.insert(2, group(2, vec![20], vec![3, 4], true, 0));
    groups.insert(3, group(3, vec![30], vec![5], true, 0));
    groups.insert(4, group(4, vec![40], vec![6], false, 0));
    groups.insert(5, group(5, vec![50], vec![], true, 0));
    groups.insert(6, group(6, vec![60], vec![], true, 0));
    assert_eq!(sorted(&get_all_chunks(&1, &0, &0, &groups)), vec![10, 20, 30, 50]);
}

#[test]
fn ancestors_that_do_not_exist_are_passed_over() {
    let mut groups = ChunkGroupByUkey::new();
    groups.insert(1, group(1, vec![10], vec![7, 2], true, 0));
    groups.insert(2, group(2, vec![20], vec![8], true, 0));
    assert_eq!(sorted(&get_all_chunks(&1, &0, &0, &groups)), vec![10, 20]);
}

#[test]
fn ancestors_in_a_circle_are_visited_once() {
    let mut groups = ChunkGroupByUkey::new();
    groups.insert(1, group(1, vec![10], vec![2, 1], true, 0));
    groups.insert(2, group(2, vec![20], vec![3], true, 0));
    groups.insert(3, group(3, vec![30], vec![1, 2], true, 0));
    assert_eq!(sorted(&get_all_chunks(&1, &0, &0, &groups)), vec![10, 20, 30]);
    assert_eq!(sorted(&get_all_chunks(&3, &20, &0, &groups)), vec![10, 30]);
}

#[test]
fn a_chunk_shared_by_groups_is_collected_once() {
    let mut groups = ChunkGroupByUkey::new();
    groups.insert(1, group(1, vec![10, 10, 11], vec![2, 2], true, 0));
    groups.insert(2, group(2, vec![11, 12], vec![], true, 0));
    let chunks = get_all_chunks(&1, &0, &0, &groups);
    assert_eq!(chunks.len(), 3);
    assert_eq!(sorted(&chunks), vec![10, 11, 12]);
}

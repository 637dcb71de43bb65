use chunk_runtime::canonical::{bytes_precede, chunk_precedes, sort_chunks};
use chunk_runtime::compilation::{Chunk, ChunkByUkey};

fn chunks(ids: &[(usize, Option<&str>)]) -> ChunkByUkey {
    let mut map = ChunkByUkey::new();
    for (ukey, id) in ids {
        map.insert(
            *ukey,
            Chunk {
                ukey: *ukey,
                name: None,
                id: id.map(|s| s.to_string()),
                hash: String::new(),
                groups: vec![],
            },
        );
    }
    map
}

#[test]
fn bytes_are_ordered_lexicographically() {
    assert!(bytes_precede(b"", b""));
    assert!(bytes_precede(b"", b"a"));
    assert!(!bytes_precede(b"a", b""));
    assert!(bytes_precede(b"a", b"a"));
    assert!(bytes_precede(b"a", b"ab"));
    assert!(!bytes_precede(b"ab", b"a"));
    assert!(bytes_precede(b"ab", b"b"));
    assert!(!bytes_precede(b"b", b"ab"));
    assert!(bytes_precede(b"abc", b"abd"));
    assert!(!bytes_precede(b"abd", b"abc"));
    assert!(bytes_precede(&[0x7f], &[0x80]));
    assert!(!bytes_precede(&[0xff], &[0x00, 0xff]));
    for (a, b) in [("10", "9"), ("main", "vendor"), ("a", "a"), ("", "z")] {
        assert_eq!(bytes_precede(a.as_bytes(), b.as_bytes()), a <= b);
        assert_eq!(bytes_precede(b.as_bytes(), a.as_bytes()), b <= a);
    }
}

#[test]
fn chunks_are_ordered_by_id_then_by_key() {
    let map = chunks(&[(1, Some("b")), (2, Some("a")), (3, Some("a")), (4, None)]);
    assert!(chunk_precedes(&map, 2, 1));
    assert!(!chunk_precedes(&map, 1, 2));
    assert!(chunk_precedes(&map, 2, 3));
    assert!(!chunk_precedes(&map, 3, 2));
    assert!(chunk_precedes(&map, 3, 3));
    assert!(chunk_precedes(&map, 4, 2));
    assert!(!chunk_precedes(&map, 2, 4));
    assert!(chunk_precedes(&map, 4, 9));
    assert!(!chunk_precedes(&map, 9, 4));
    assert!(chunk_precedes(&map, 9, 1));
}

#[test]
fn sorting_puts_chunks_in_canonical_order() {
    let map = chunks(&[
        (1, Some("vendor")),
        (2, Some("main")),
        (3, Some("10")),
        (4, Some("9")),
        (5, None),
        (6, Some("main")),
    ]);
    assert_eq!(sort_chunks(&map, &vec![1, 2, 3, 4, 5, 6, 7]), vec![5, 7, 3, 4, 2, 6, 1]);
    assert_eq!(sort_chunks(&map, &vec![]), Vec::<usize>::new());
    assert_eq!(sort_chunks(&map, &vec![2, 2, 1, 2]), vec![2, 2, 2, 1]);
}

#[test]
fn every_walk_of_a_set_has_one_canonical_order() {
    let map = chunks(&[(1, Some("c")), (2, Some("a")), (3, Some("b")), (4, Some("a"))]);
    let walks: [Vec<usize>; 6] = [
        vec![1, 2, 3, 4],
        vec![4, 3, 2, 1],
        vec![2, 4, 1, 3],
        vec![3, 1, 4, 2],
        vec![4, 2, 3, 1],
        vec![1, 3, 2, 4],
    ];
    for walk in walks.iter() {
        assert_eq!(sort_chunks(&map, walk), vec![2, 4, 3, 1]);
    }
}

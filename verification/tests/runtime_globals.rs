use chunk_runtime::runtime_globals::{
    RuntimeGlobals, BASE_URI, ENSURE_CHUNK_HANDLERS, EXTERNAL_INSTALL_CHUNK,
    GET_CHUNK_SCRIPT_FILENAME, HAS_OWN_PROPERTY, MODULE_FACTORIES_ADD_ONLY, ON_CHUNKS_LOADED,
    REQUIRE,
};

#[test]
fn named_flags_are_distinct_single_bits() {
    let all = [
        RuntimeGlobals::require(),
        RuntimeGlobals::ensure_chunk_handlers(),
        RuntimeGlobals::external_install_chunk(),
        RuntimeGlobals::on_chunks_loaded(),
        RuntimeGlobals::base_uri(),
        RuntimeGlobals::module_factories_add_only(),
        RuntimeGlobals::has_own_property(),
        RuntimeGlobals::get_chunk_script_filename(),
    ];
    let bits = [
        REQUIRE,
        ENSURE_CHUNK_HANDLERS,
        EXTERNAL_INSTALL_CHUNK,
        ON_CHUNKS_LOADED,
        BASE_URI,
        MODULE_FACTORIES_ADD_ONLY,
        HAS_OWN_PROPERTY,
        GET_CHUNK_SCRIPT_FILENAME,
    ];
    for (i, flag) in all.iter().enumerate() {
        assert_eq!(flag.bits(), bits[i]);
        assert_eq!(flag.bits().count_ones(), 1);
        for (j, other) in all.iter().enumerate() {
            assert_eq!(flag.contains(*other), i == j);
        }
    }
}

#[test]
fn union_holds_the_members_of_both() {
    let a = RuntimeGlobals::require().union(RuntimeGlobals::base_uri());
    let b = RuntimeGlobals::base_uri().union(RuntimeGlobals::has_own_property());
    let both = a.union(b);
    assert_eq!(both.bits(), 0x01 | 0x10 | 0x40);
    assert!(both.contains(a));
    assert!(both.contains(b));
    assert!(!a.contains(b));
    assert_eq!(a.union(a), a);
    assert_eq!(a.union(RuntimeGlobals::empty()), a);
}

#[test]
fn contains_is_a_subset_test() {
    let set = RuntimeGlobals::from_bits(0b1011);
    assert!(set.contains(RuntimeGlobals::from_bits(0b0011)));
    assert!(set.contains(RuntimeGlobals::from_bits(0b1011)));
    assert!(set.contains(RuntimeGlobals::empty()));
    assert!(!set.contains(RuntimeGlobals::from_bits(0b0100)));
    assert!(!set.contains(RuntimeGlobals::from_bits(0b1111)));
}

#[test]
fn insert_only_adds() {
    let mut set = RuntimeGlobals::ensure_chunk_handlers();
    let before = set;
    set.insert(RuntimeGlobals::get_chunk_script_filename());
    assert_eq!(set.bits(), 0x02 | 0x80);
    assert!(set.contains(before));
    set.insert(RuntimeGlobals::ensure_chunk_handlers());
    assert_eq!(set.bits(), 0x02 | 0x80);
    set.insert(RuntimeGlobals::empty());
    assert_eq!(set.bits(), 0x02 | 0x80);
}

#[test]
fn empty_set_has_no_member() {
    assert!(RuntimeGlobals::empty().is_empty());
    assert_eq!(RuntimeGlobals::empty().bits(), 0);
    assert!(!RuntimeGlobals::require().is_empty());
    assert!(RuntimeGlobals::empty().iter().is_empty());
    assert!(!RuntimeGlobals::empty().contains(RuntimeGlobals::require()));
}

#[test]
fn iter_yields_each_member_lowest_bit_first() {
    let set = RuntimeGlobals::has_own_property()
        .union(RuntimeGlobals::require())
        .union(RuntimeGlobals::base_uri());
    assert_eq!(
        set.iter(),
        vec![
            RuntimeGlobals::require(),
            RuntimeGlobals::base_uri(),
            RuntimeGlobals::has_own_property(),
        ]
    );
    let high = RuntimeGlobals::from_bits(0x8000_0000_0000_0001);
    assert_eq!(
        high.iter(),
        vec![RuntimeGlobals::from_bits(1), RuntimeGlobals::from_bits(0x8000_0000_0000_0000)]
    );
    assert_eq!(RuntimeGlobals::from_bits(u64::MAX).iter().len(), 64);
    let mut rebuilt = RuntimeGlobals::empty();
    for member in set.iter() {
        rebuilt.insert(member);
    }
    assert_eq!(rebuilt, set);
}

#[test]
fn names_are_the_expressions_of_emitted_code() {
    assert_eq!(RuntimeGlobals::require().name(), "__webpack_require__");
    assert_eq!(RuntimeGlobals::ensure_chunk_handlers().name(), "__webpack_require__.f");
    assert_eq!(RuntimeGlobals::external_install_chunk().name(), "__webpack_require__.C");
    assert_eq!(RuntimeGlobals::on_chunks_loaded().name(), "__webpack_require__.O");
    assert_eq!(RuntimeGlobals::base_uri().name(), "__webpack_require__.b");
    assert_eq!(
        RuntimeGlobals::module_factories_add_only().name(),
        "__webpack_require__.m (add only)"
    );
    assert_eq!(RuntimeGlobals::has_own_property().name(), "__webpack_require__.o");
    assert_eq!(RuntimeGlobals::get_chunk_script_filename().name(), "__webpack_require__.u");
    assert_eq!(RuntimeGlobals::empty().name(), "");
    assert_eq!(RuntimeGlobals::from_bits(0x03).name(), "");
}

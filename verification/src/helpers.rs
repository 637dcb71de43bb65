//! What a chunk's startup depends on: the chunks that its entry points reach,
//! the bytes that they contribute to its hash, and the path of its runtime chunk.

use crate::canonical::{
    canonical_order, is_canonical, lemma_canonical_order_ignores_iteration,
    lemma_canonical_order_of_walk, sort_chunks,
};
use crate::chunk_set::{set_insert, set_members};
use crate::compilation::{
    text_of, Chunk, ChunkByUkey, ChunkGroup, ChunkGroupByUkey, ChunkGroupUkey, ChunkUkey,
    Compilation, EntryModules, ModuleIdentifier,
};
use crate::error::Error;
use crate::filename::{
    is_runtime_chunk_path, runtime_chunk_filename_options, FilenameRenderOptions,
};
use crate::hasher::{
    absorbed, feed, framed_optional_text, framed_text, push_framed_optional_text, push_framed_text,
    xxh3_64_digest, xxh3_64_of,
};
use crate::plugin::RenderChunkArgs;
use rustc_hash::FxHashSet;
use vstd::prelude::*;
use vstd::set_lib::*;
use vstd::string::*;
use xxhash_rust::xxh3::Xxh3;

verus! {

broadcast use vstd::std_specs::hash::group_hash_axioms;

/// `to` is listed among the ancestors of `from`, exists and is initial.
pub open spec fn initial_ancestor(
    groups: Map<ChunkGroupUkey, ChunkGroup>,
    from: ChunkGroupUkey,
    to: ChunkGroupUkey,
) -> bool {
    &&& groups.contains_key(from)
    &&& groups[from].ancestors@.contains(to)
    &&& groups.contains_key(to)
    &&& groups[to].initial
}

/// `group` is reached from `entry` by going `steps` times from a group to one
/// of its initial ancestors.
pub open spec fn reaches_in(
    groups: Map<ChunkGroupUkey, ChunkGroup>,
    entry: ChunkGroupUkey,
    group: ChunkGroupUkey,
    steps: nat,
) -> bool
    decreases steps,
{
    if steps == 0 {
        group == entry && groups.contains_key(entry)
    } else {
        exists|via: ChunkGroupUkey|
            reaches_in(groups, entry, via, (steps - 1) as nat) && #[trigger] initial_ancestor(
                groups,
                via,
                group,
            )
    }
}

/// `group` is `entry` or is reached from it through initial ancestors only.
pub open spec fn reaches(
    groups: Map<ChunkGroupUkey, ChunkGroup>,
    entry: ChunkGroupUkey,
    group: ChunkGroupUkey,
) -> bool {
    exists|steps: nat| reaches_in(groups, entry, group, steps)
}

/// The members of the groups in `among`, without the two excluded chunks.
pub open spec fn members_of(
    groups: Map<ChunkGroupUkey, ChunkGroup>,
    among: Set<ChunkGroupUkey>,
    exclude_chunk1: ChunkUkey,
    exclude_chunk2: ChunkUkey,
) -> Set<ChunkUkey> {
    Set::new(
        |chunk: ChunkUkey|
            chunk != exclude_chunk1 && chunk != exclude_chunk2 && exists|group: ChunkGroupUkey|
                among.contains(group) && groups.contains_key(group) && (
                #[trigger] groups[group]).chunks@.contains(chunk),
    )
}

/// The chunks that `entrypoint` reaches: the members of the group itself and
/// of every group reached from it through initial ancestors, without the two
/// excluded chunks. Groups behind an ancestor that is not initial stay out.
pub open spec fn all_chunks(
    groups: Map<ChunkGroupUkey, ChunkGroup>,
    entrypoint: ChunkGroupUkey,
    exclude_chunk1: ChunkUkey,
    exclude_chunk2: ChunkUkey,
) -> Set<ChunkUkey> {
    members_of(
        groups,
        Set::new(|group: ChunkGroupUkey| reaches(groups, entrypoint, group)),
        exclude_chunk1,
        exclude_chunk2,
    )
}

/// A group that is reached exists.
pub proof fn lemma_reached_exists(
    groups: Map<ChunkGroupUkey, ChunkGroup>,
    entry: ChunkGroupUkey,
    group: ChunkGroupUkey,
)
    requires
        reaches(groups, entry, group),
    ensures
        groups.contains_key(group),
{
    let steps = choose|steps: nat| reaches_in(groups, entry, group, steps);
    if steps > 0 {
        let via = choose|via: ChunkGroupUkey|
            reaches_in(groups, entry, via, (steps - 1) as nat) && #[trigger] initial_ancestor(
                groups,
                via,
                group,
            );
    }
}

/// An initial ancestor of a reached group is reached.
pub proof fn lemma_reaches_step(
    groups: Map<ChunkGroupUkey, ChunkGroup>,
    entry: ChunkGroupUkey,
    via: ChunkGroupUkey,
    group: ChunkGroupUkey,
)
    requires
        reaches(groups, entry, via),
        initial_ancestor(groups, via, group),
    ensures
        reaches(groups, entry, group),
{
    let steps = choose|steps: nat| reaches_in(groups, entry, via, steps);
    let next: nat = steps + 1;
    assert(reaches_in(groups, entry, via, (next - 1) as nat));
    assert(reaches_in(groups, entry, group, next));
}

/// A set of groups that holds `entry` and, with each group, its initial
/// ancestors, holds every group that `entry` reaches in `steps` steps.
proof fn lemma_closed_holds_reached(
    groups: Map<ChunkGroupUkey, ChunkGroup>,
    entry: ChunkGroupUkey,
    closed: Set<ChunkGroupUkey>,
    group: ChunkGroupUkey,
    steps: nat,
)
    requires
        groups.contains_key(entry) ==> closed.contains(entry),
        forall|from: ChunkGroupUkey, to: ChunkGroupUkey|
            closed.contains(from) && #[trigger] initial_ancestor(groups, from, to)
                ==> closed.contains(to),
        reaches_in(groups, entry, group, steps),
    ensures
        closed.contains(group),
    decreases steps,
{
    if steps > 0 {
        let via = choose|via: ChunkGroupUkey|
            reaches_in(groups, entry, via, (steps - 1) as nat) && #[trigger] initial_ancestor(
                groups,
                via,
                group,
            );
        lemma_closed_holds_reached(groups, entry, closed, via, (steps - 1) as nat);
        assert(initial_ancestor(groups, via, group));
    }
}

/// Exclusion: what an entry point reaches holds neither of the two excluded
/// chunks; and where no other chunk bears the id of an excluded chunk, no
/// chunk that is reached bears it.
pub proof fn lemma_reached_excludes(
    chunks: Map<ChunkUkey, Chunk>,
    groups: Map<ChunkGroupUkey, ChunkGroup>,
    entrypoint: ChunkGroupUkey,
    exclude_chunk1: ChunkUkey,
    exclude_chunk2: ChunkUkey,
    reached: ChunkUkey,
)
    requires
        all_chunks(groups, entrypoint, exclude_chunk1, exclude_chunk2).contains(reached),
        chunks.contains_key(reached),
        forall|excluded: ChunkUkey, other: ChunkUkey|
            (excluded == exclude_chunk1 || excluded == exclude_chunk2) && chunks.contains_key(
                excluded,
            ) && chunks.contains_key(other) && other != excluded ==> text_of(
                #[trigger] chunks[other].id,
            ) != text_of(#[trigger] chunks[excluded].id),
    ensures
        reached != exclude_chunk1,
        reached != exclude_chunk2,
        chunks.contains_key(exclude_chunk1) ==> text_of(chunks[reached].id) != text_of(
            chunks[exclude_chunk1].id,
        ),
        chunks.contains_key(exclude_chunk2) ==> text_of(chunks[reached].id) != text_of(
            chunks[exclude_chunk2].id,
        ),
{
}

/// Adds the members of `group` to `chunks`, but for the two excluded chunks.
fn add_members(
    chunks: &mut FxHashSet<ChunkUkey>,
    group: &ChunkGroup,
    exclude_chunk1: &ChunkUkey,
    exclude_chunk2: &ChunkUkey,
)
    requires
        old(chunks)@.finite(),
    ensures
        final(chunks)@.finite(),
        forall|chunk: ChunkUkey|
            final(chunks)@.contains(chunk) <==> old(chunks)@.contains(chunk) || (chunk
                != *exclude_chunk1 && chunk != *exclude_chunk2 && group.chunks@.contains(chunk)),
{
    let mut i: usize = 0;
    while i < group.chunks.len()
        invariant
            i <= group.chunks.len(),
            chunks@.finite(),
            forall|chunk: ChunkUkey|
                chunks@.contains(chunk) <==> old(chunks)@.contains(chunk) || (chunk
                    != *exclude_chunk1 && chunk != *exclude_chunk2 && exists|j: int|
                    0 <= j < i && group.chunks@[j] == chunk),
        decreases group.chunks.len() - i,
    {
        let chunk: ChunkUkey = group.chunks[i];
        if !(chunk == *exclude_chunk1 || chunk == *exclude_chunk2) {
            set_insert(chunks, chunk);
        }
        i = i + 1;
    }
}

/// Puts on `pending` every ancestor of `group` that exists and is initial.
fn push_initial_ancestors(
    pending: &mut Vec<ChunkGroupUkey>,
    group_ukey: ChunkGroupUkey,
    chunk_group_by_ukey: &ChunkGroupByUkey,
)
    requires
        chunk_group_by_ukey@.contains_key(group_ukey),
    ensures
        final(pending)@.len() >= old(pending)@.len(),
        final(pending)@.subrange(0, old(pending)@.len() as int) == old(pending)@,
        forall|i: int|
            old(pending)@.len() <= i < final(pending)@.len() ==> initial_ancestor(
                chunk_group_by_ukey@,
                group_ukey,
                #[trigger] final(pending)@[i],
            ),
        forall|to: ChunkGroupUkey| #[trigger]
            initial_ancestor(chunk_group_by_ukey@, group_ukey, to) ==> final(pending)@.contains(
                to,
            ),
{
    let ghost before = pending@;
    let found: Option<&ChunkGroup> = chunk_group_by_ukey.get(&group_ukey);
    if let Some(group) = found {
        let mut i: usize = 0;
        while i < group.ancestors.len()
            invariant
                i <= group.ancestors.len(),
                chunk_group_by_ukey@.contains_key(group_ukey),
                *group == chunk_group_by_ukey@[group_ukey],
                pending@.len() >= before.len(),
                pending@.subrange(0, before.len() as int) == before,
                forall|k: int|
                    before.len() <= k < pending@.len() ==> initial_ancestor(
                        chunk_group_by_ukey@,
                        group_ukey,
                        #[trigger] pending@[k],
                    ),
                forall|j: int|
                    0 <= j < i && initial_ancestor(
                        chunk_group_by_ukey@,
                        group_ukey,
                        #[trigger] group.ancestors@[j],
                    ) ==> pending@.contains(group.ancestors@[j]),
            decreases group.ancestors.len() - i,
        {
            let parent: ChunkGroupUkey = group.ancestors[i];
            let ghost so_far = pending@;
            if let Some(chunk_group) = chunk_group_by_ukey.get(&parent) {
                if chunk_group.is_initial() {
                    pending.push(parent);
                    proof {
                        assert(pending@[pending@.len() - 1] == parent);
                        assert(group.ancestors@.contains(parent));
                    }
                }
            }
            proof {
                assert(pending@.subrange(0, before.len() as int) =~= before);
                assert forall|j: int|
                    0 <= j < i + 1 && initial_ancestor(
                        chunk_group_by_ukey@,
                        group_ukey,
                        #[trigger] group.ancestors@[j],
                    ) implies pending@.contains(group.ancestors@[j]) by {
                    if j < i {
                        let k = choose|k: int|
                            0 <= k < so_far.len() && so_far[k] == group.ancestors@[j];
                        assert(pending@[k] == group.ancestors@[j]);
                    } else {
                        assert(pending@[pending@.len() - 1] == parent);
                    }
                }
            }
            i = i + 1;
        }
    }
}

/// The chunks that the entry point `entrypoint` reaches, without
/// `exclude_chunk1` and `exclude_chunk2`: the members of the group and of the
/// initial groups among its ancestors, and theirs in turn. An entry point that
/// does not exist reaches nothing.
pub fn get_all_chunks(
    entrypoint: &ChunkGroupUkey,
    exclude_chunk1: &ChunkUkey,
    exclude_chunk2: &ChunkUkey,
    chunk_group_by_ukey: &ChunkGroupByUkey,
) -> (chunks: FxHashSet<ChunkUkey>)
    ensures
        chunks@ == all_chunks(
            chunk_group_by_ukey@,
            *entrypoint,
            *exclude_chunk1,
            *exclude_chunk2,
        ),
        chunks@.finite(),
        !chunks@.contains(*exclude_chunk1),
        !chunks@.contains(*exclude_chunk2),
{
    let ghost groups = chunk_group_by_ukey@;
    let ghost entry = *entrypoint;
    let mut chunks: FxHashSet<ChunkUkey> = FxHashSet::default();
    let mut visited: FxHashSet<ChunkGroupUkey> = FxHashSet::default();
    let mut pending: Vec<ChunkGroupUkey> = Vec::new();
    if chunk_group_by_ukey.get(entrypoint).is_some() {
        pending.push(*entrypoint);
        proof {
            assert(reaches_in(groups, entry, entry, 0));
            assert(pending@[0] == entry);
        }
    }
    proof {
        assert(chunks@ =~= members_of(groups, visited@, *exclude_chunk1, *exclude_chunk2));
    }
    while pending.len() > 0
        invariant
            groups == chunk_group_by_ukey@,
            entry == *entrypoint,
            groups.dom().finite(),
            visited@.finite(),
            chunks@.finite(),
            visited@.subset_of(groups.dom()),
            forall|group: ChunkGroupUkey|
                visited@.contains(group) ==> reaches(groups, entry, group),
            forall|i: int| 0 <= i < pending@.len() ==> reaches(groups, entry, #[trigger] pending@[i]),
            forall|from: ChunkGroupUkey, to: ChunkGroupUkey|
                visited@.contains(from) && #[trigger] initial_ancestor(groups, from, to)
                    ==> visited@.contains(to) || pending@.contains(to),
            groups.contains_key(entry) ==> visited@.contains(entry) || pending@.contains(entry),
            chunks@ == members_of(groups, visited@, *exclude_chunk1, *exclude_chunk2),
        decreases groups.dom().len() - visited@.len(), pending@.len(),
    {
        let ghost pending_before = pending@;
        let ghost visited_before = visited@;
        let ghost chunks_before = chunks@;
        let group_ukey: ChunkGroupUkey = pending.pop().unwrap();
        proof {
            assert(group_ukey == pending_before[pending_before.len() - 1]);
            assert(reaches(groups, entry, group_ukey));
            lemma_reached_exists(groups, entry, group_ukey);
            assert forall|to: ChunkGroupUkey| pending_before.contains(to) implies pending@.contains(
                to,
            ) || to == group_ukey by {
                let k = choose|k: int| 0 <= k < pending_before.len() && pending_before[k] == to;
                if k < pending@.len() {
                    assert(pending@[k] == to);
                }
            }
        }
        let fresh: bool = set_insert(&mut visited, group_ukey);
        if fresh {
            proof {
                assert(visited@.subset_of(groups.dom()));
                lemma_len_subset(visited@, groups.dom());
            }
            let found: Option<&ChunkGroup> = chunk_group_by_ukey.get(&group_ukey);
            if let Some(group) = found {
                add_members(&mut chunks, group, exclude_chunk1, exclude_chunk2);
                proof {
                    assert forall|chunk: ChunkUkey|
                        chunks@.contains(chunk) <==> members_of(
                            groups,
                            visited@,
                            *exclude_chunk1,
                            *exclude_chunk2,
                        ).contains(chunk) by {
                        if chunks@.contains(chunk) {
                            if chunks_before.contains(chunk) {
                                let g = choose|g: ChunkGroupUkey|
                                    visited_before.contains(g) && groups.contains_key(g) && (
                                    #[trigger] groups[g]).chunks@.contains(chunk);
                                assert(visited@.contains(g) && groups[g].chunks@.contains(chunk));
                            } else {
                                assert(visited@.contains(group_ukey) && groups[group_ukey].chunks@.contains(
                                    chunk,
                                ));
                            }
                        }
                        if members_of(groups, visited@, *exclude_chunk1, *exclude_chunk2).contains(
                            chunk,
                        ) {
                            let g = choose|g: ChunkGroupUkey|
                                visited@.contains(g) && groups.contains_key(g) && (
                                #[trigger] groups[g]).chunks@.contains(chunk);
                            if g != group_ukey {
                                assert(visited_before.contains(g) && groups[g].chunks@.contains(
                                    chunk,
                                ));
                            }
                        }
                    }
                    assert(chunks@ =~= members_of(
                        groups,
                        visited@,
                        *exclude_chunk1,
                        *exclude_chunk2,
                    ));
                }
            }
            let ghost pending_popped = pending@;
            push_initial_ancestors(&mut pending, group_ukey, chunk_group_by_ukey);
            proof {
                assert forall|to: ChunkGroupUkey| pending_popped.contains(to) implies pending@.contains(
                    to,
                ) by {
                    let k = choose|k: int| 0 <= k < pending_popped.len() && pending_popped[k] == to;
                    assert(pending@.subrange(0, pending_popped.len() as int)[k] == to);
                    assert(pending@[k] == to);
                }
                assert forall|i: int| 0 <= i < pending@.len() implies reaches(
                    groups,
                    entry,
                    #[trigger] pending@[i],
                ) by {
                    if i < pending_popped.len() {
                        assert(pending@.subrange(0, pending_popped.len() as int)[i] == pending@[i]);
                    } else {
                        lemma_reaches_step(groups, entry, group_ukey, pending@[i]);
                    }
                }
            }
        } else {
            proof {
                assert(visited@ =~= visited_before);
            }
        }
    }
    proof {
        assert forall|group: ChunkGroupUkey| reaches(groups, entry, group) implies visited@.contains(
            group,
        ) by {
            let steps = choose|steps: nat| reaches_in(groups, entry, group, steps);
            assert forall|to: ChunkGroupUkey| !pending@.contains(to) by {
                if pending@.contains(to) {
                    let k = choose|k: int| 0 <= k < pending@.len() && pending@[k] == to;
                }
            }
            lemma_closed_holds_reached(groups, entry, visited@, group, steps);
        }
        assert(visited@ =~= Set::new(|group: ChunkGroupUkey| reaches(groups, entry, group)));
    }
    chunks
}

/// What the chunks of `order` feed to a hash: the framed id of each chunk that
/// exists, in the order given. A key without a chunk feeds nothing.
pub open spec fn chunk_ids_feed(chunks: Map<ChunkUkey, Chunk>, order: Seq<ChunkUkey>) -> Seq<u8>
    decreases order.len(),
{
    if order.len() == 0 {
        Seq::empty()
    } else {
        chunk_ids_feed(chunks, order.drop_last()) + if chunks.contains_key(order.last()) {
            framed_optional_text(text_of(chunks[order.last()].id))
        } else {
            Seq::empty()
        }
    }
}

/// What one entry module of the chunk `chunk` feeds to the hash: its stable id,
/// where the module has one, then the ids of the chunks that its chunk group
/// reaches, in canonical order. The chunk itself and the group's runtime chunk
/// are not among them. A group that does not exist feeds nothing.
pub open spec fn entry_feed(
    compilation: &Compilation,
    entry: (ModuleIdentifier, ChunkGroupUkey),
    chunk: ChunkUkey,
) -> Seq<u8> {
    let groups = compilation.chunk_group_by_ukey@;
    let chunks = compilation.chunk_by_ukey@;
    let module_part = match compilation.chunk_graph.module_id_of(entry.0) {
        Some(id) => framed_text(id),
        None => Seq::empty(),
    };
    let group_part = if groups.contains_key(entry.1) {
        chunk_ids_feed(
            chunks,
            canonical_order(
                chunks,
                all_chunks(groups, entry.1, chunk, groups[entry.1].runtime_chunk),
            ),
        )
    } else {
        Seq::empty()
    };
    module_part + group_part
}

/// What the entry modules `entries` of the chunk `chunk` feed to the hash, one
/// after the other in declaration order.
pub open spec fn entry_startup_feed(
    compilation: &Compilation,
    entries: Seq<(ModuleIdentifier, ChunkGroupUkey)>,
    chunk: ChunkUkey,
) -> Seq<u8>
    decreases entries.len(),
{
    if entries.len() == 0 {
        Seq::empty()
    } else {
        entry_startup_feed(compilation, entries.drop_last(), chunk) + entry_feed(
            compilation,
            entries.last(),
            chunk,
        )
    }
}

/// Determinism: however the chunks that an entry point reaches are walked,
/// they feed the same bytes. Two walks that meet the same chunks equally
/// often, each put into canonical order, feed one byte string.
pub proof fn lemma_feed_ignores_iteration(
    chunks: Map<ChunkUkey, Chunk>,
    walk1: Seq<ChunkUkey>,
    walk2: Seq<ChunkUkey>,
    order1: Seq<ChunkUkey>,
    order2: Seq<ChunkUkey>,
)
    requires
        walk1.to_multiset() == walk2.to_multiset(),
        is_canonical(chunks, walk1, order1),
        is_canonical(chunks, walk2, order2),
    ensures
        chunk_ids_feed(chunks, order1) == chunk_ids_feed(chunks, order2),
{
    lemma_canonical_order_ignores_iteration(chunks, walk1, walk2, order1, order2);
}

/// Appends to `buffer` what the chunks of `order` feed to a hash.
pub fn push_chunk_ids(buffer: &mut Vec<u8>, chunk_by_ukey: &ChunkByUkey, order: &Vec<ChunkUkey>)
    ensures
        final(buffer)@ == old(buffer)@ + chunk_ids_feed(chunk_by_ukey@, order@),
{
    let ghost before = buffer@;
    let mut i: usize = 0;
    proof {
        assert(order@.take(0) =~= Seq::<ChunkUkey>::empty());
        assert(buffer@ =~= before + chunk_ids_feed(chunk_by_ukey@, order@.take(0)));
    }
    while i < order.len()
        invariant
            i <= order.len(),
            buffer@ == before + chunk_ids_feed(chunk_by_ukey@, order@.take(i as int)),
        decreases order.len() - i,
    {
        let ghost so_far = buffer@;
        if let Some(chunk) = chunk_by_ukey.get(&order[i]) {
            push_framed_optional_text(buffer, &chunk.id);
        }
        proof {
            let next = order@.take(i + 1);
            assert(next.drop_last() =~= order@.take(i as int));
            assert(next.last() == order@[i as int]);
            assert(buffer@ =~= before + chunk_ids_feed(chunk_by_ukey@, next));
        }
        i = i + 1;
    }
    proof {
        assert(order@.take(order@.len() as int) =~= order@);
    }
}

/// The bytes that the entry modules `entries` of the chunk `chunk` contribute
/// to its hash. They depend on the order of `entries`, which is kept, and on
/// the set of chunks that each entry point reaches, not on the order in which
/// that set is walked.
pub fn entry_startup_hash_input(
    compilation: &Compilation,
    entries: &EntryModules,
    chunk: &ChunkUkey,
) -> (input: Vec<u8>)
    ensures
        input@ == entry_startup_feed(compilation, entries@, *chunk),
{
    let mut input: Vec<u8> = Vec::new();
    let mut i: usize = 0;
    proof {
        assert(entries@.take(0) =~= Seq::<(ModuleIdentifier, ChunkGroupUkey)>::empty());
    }
    while i < entries.len()
        invariant
            i <= entries@.len(),
            input@ == entry_startup_feed(compilation, entries@.take(i as int), *chunk),
        decreases entries@.len() - i,
    {
        let ghost so_far = input@;
        let (module, entry): (ModuleIdentifier, ChunkGroupUkey) = entries.get(i).unwrap();
        if let Some(module_id) = compilation.chunk_graph.get_module_id(&module) {
            push_framed_text(&mut input, module_id.as_str());
        }
        if let Some(group) = compilation.chunk_group_by_ukey.get(&entry) {
            let runtime_chunk: ChunkUkey = group.get_runtime_chunk();
            let reached: FxHashSet<ChunkUkey> = get_all_chunks(
                &entry,
                chunk,
                &runtime_chunk,
                &compilation.chunk_group_by_ukey,
            );
            let walk: Vec<ChunkUkey> = set_members(&reached);
            let order: Vec<ChunkUkey> = sort_chunks(&compilation.chunk_by_ukey, &walk);
            proof {
                lemma_canonical_order_of_walk(
                    compilation.chunk_by_ukey@,
                    reached@,
                    walk@,
                    order@,
                );
            }
            push_chunk_ids(&mut input, &compilation.chunk_by_ukey, &order);
        }
        proof {
            let next = entries@.take(i + 1);
            assert(next.drop_last() =~= entries@.take(i as int));
            assert(next.last() == entries@[i as int]);
            assert(input@ =~= so_far + entry_feed(compilation, (module, entry), *chunk));
        }
        i = i + 1;
    }
    proof {
        assert(entries@.take(entries@.len() as int) =~= entries@);
    }
    input
}

/// The hash of what the entry modules `entries` of the chunk `chunk`
/// contribute, on its own. Determinism: the hash is a function of the entry
/// modules in their order, of the ids of their modules, and of the set of
/// chunks that each entry point reaches; the same input gives the same hash.
pub fn entry_startup_hash(compilation: &Compilation, entries: &EntryModules, chunk: &ChunkUkey) -> (hash:
    u64)
    ensures
        hash == xxh3_64_of(entry_startup_feed(compilation, entries@, *chunk)),
{
    let input: Vec<u8> = entry_startup_hash_input(compilation, entries, chunk);
    xxh3_64_digest(input.as_slice())
}

/// Feeds to `hasher` what the entry modules `entries` of the chunk `chunk`
/// contribute to its hash: for each entry module in declaration order its
/// stable id, then the ids of the chunks that its entry point reaches.
pub fn update_hash_for_entry_startup(
    hasher: &mut Xxh3,
    compilation: &Compilation,
    entries: &EntryModules,
    chunk: &ChunkUkey,
)
    ensures
        absorbed(*final(hasher)) == absorbed(*old(hasher)) + entry_startup_feed(
            compilation,
            entries@,
            *chunk,
        ),
{
    let input: Vec<u8> = entry_startup_hash_input(compilation, entries, chunk);
    feed(hasher, input.as_slice());
}

/// The runtime chunk of the chunk `chunk`: the one that the chunk group of its
/// first entry module names. Each lookup on the way can fail.
pub open spec fn runtime_chunk_of(compilation: &Compilation, chunk: ChunkUkey) -> Result<
    ChunkUkey,
    Error,
> {
    let entries = compilation.chunk_graph.entries_of(chunk);
    let groups = compilation.chunk_group_by_ukey@;
    if entries.len() == 0 {
        Err(Error::MissingEntryPoint(chunk))
    } else if !groups.contains_key(entries[0].1) {
        Err(Error::MissingChunkGroup(entries[0].1))
    } else if !compilation.chunk_by_ukey@.contains_key(groups[entries[0].1].runtime_chunk) {
        Err(Error::MissingRuntimeChunk(groups[entries[0].1].runtime_chunk))
    } else {
        Ok(groups[entries[0].1].runtime_chunk)
    }
}

/// The path from a chunk to its runtime chunk: `./` and the file name that
/// `render` makes for the runtime chunk.
///
/// Fails where the chunk has no entry module, where the chunk group of its
/// first entry module is unknown, and where that group's runtime chunk is.
pub fn get_runtime_chunk_path<F: Fn(FilenameRenderOptions) -> String>(
    args: &RenderChunkArgs,
    render: &F,
) -> (path: Result<String, Error>)
    requires
        forall|options: FilenameRenderOptions| call_requires(render, (options,)),
    ensures
        match runtime_chunk_of(args.compilation, *args.chunk_ukey) {
            Err(e) => path == Err::<String, Error>(e),
            Ok(runtime_chunk) => path is Ok && is_runtime_chunk_path(
                args.compilation.chunk_by_ukey@[runtime_chunk],
                render,
                path->Ok_0@,
            ),
        },
{
    let compilation: &Compilation = args.compilation;
    let entry_points: Option<&EntryModules> =
        compilation.chunk_graph.get_chunk_entry_modules_with_chunk_group_iterable(args.chunk_ukey);
    let entry_point_ukey: ChunkGroupUkey = match entry_points {
        Some(entry_points) => match entry_points.get(0) {
            Some(first) => first.1,
            None => {
                return Err(Error::MissingEntryPoint(*args.chunk_ukey));
            },
        },
        None => {
            return Err(Error::MissingEntryPoint(*args.chunk_ukey));
        },
    };
    let entry_point: &ChunkGroup = match compilation.chunk_group_by_ukey.get(&entry_point_ukey) {
        Some(group) => group,
        None => {
            return Err(Error::MissingChunkGroup(entry_point_ukey));
        },
    };
    let runtime_chunk_ukey: ChunkUkey = entry_point.get_runtime_chunk();
    let runtime_chunk: &Chunk = match compilation.chunk_by_ukey.get(&runtime_chunk_ukey) {
        Some(chunk) => chunk,
        None => {
            return Err(Error::MissingRuntimeChunk(runtime_chunk_ukey));
        },
    };
    let options = FilenameRenderOptions {
        name: runtime_chunk.name_for_filename_template(),
        extension: Some(String::from_str(".js")),
        id: match &runtime_chunk.id {
            Some(id) => Some(id.clone()),
            None => None,
        },
        contenthash: Some(runtime_chunk.get_render_hash()),
        chunkhash: Some(runtime_chunk.get_render_hash()),
        hash: Some(runtime_chunk.get_render_hash()),
    };
    let ghost given = options;
    let runtime_chunk_filename: String = render(options);
    let mut path: String = String::from_str("./");
    path.append(runtime_chunk_filename.as_str());
    proof {
        assert(given@ == runtime_chunk_filename_options(
            args.compilation.chunk_by_ukey@[runtime_chunk_ukey],
        ));
        assert(call_ensures(render, (given,), runtime_chunk_filename));
    }
    Ok(path)
}

} // verus!

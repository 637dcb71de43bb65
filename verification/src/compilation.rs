//! The already-built graphs that requirement resolution, hashing and assembly
//! read: chunks, chunk groups, and what the chunk graph knows of each chunk.

use crate::runtime_module::RuntimeModule;
use std::collections::HashMap;
use vstd::prelude::*;

verus! {

broadcast use vstd::std_specs::hash::group_hash_axioms;

/// Key of a chunk.
pub type ChunkUkey = usize;

/// Key of a chunk group.
pub type ChunkGroupUkey = usize;

/// Handle of a module's identifier.
pub type ModuleIdentifier = usize;

/// The chunks of a compilation, by key.
pub type ChunkByUkey = HashMap<ChunkUkey, Chunk>;

/// The chunk groups of a compilation, by key.
pub type ChunkGroupByUkey = HashMap<ChunkGroupUkey, ChunkGroup>;

/// The text of an optional string.
pub open spec fn text_of(text: Option<String>) -> Option<Seq<char>> {
    match text {
        Some(s) => Some(s@),
        None => None,
    }
}

/// A unit of emitted output.
pub struct Chunk {
    pub ukey: ChunkUkey,
    pub name: Option<String>,
    /// The stable id, once ids have been assigned.
    pub id: Option<String>,
    /// The rendered content hash.
    pub hash: String,
    /// The chunk groups that the chunk is a member of.
    pub groups: Vec<ChunkGroupUkey>,
}

/// A set of chunks produced together for one entry point or split point.
pub struct ChunkGroup {
    pub ukey: ChunkGroupUkey,
    /// The member chunks, in order.
    pub chunks: Vec<ChunkUkey>,
    /// The keys of the groups that this group descends from.
    pub ancestors: Vec<ChunkGroupUkey>,
    /// Whether the group is loaded synchronously with its entry point.
    pub initial: bool,
    /// The chunk that carries the bootstrap code of this group.
    pub runtime_chunk: ChunkUkey,
}

impl ChunkGroup {
    /// Whether the group is loaded synchronously with its entry point.
    pub fn is_initial(&self) -> (initial: bool)
        ensures
            initial == self.initial,
    {
        self.initial
    }

    /// The chunk that carries the bootstrap code of this group.
    pub fn get_runtime_chunk(&self) -> (chunk: ChunkUkey)
        ensures
            chunk == self.runtime_chunk,
    {
        self.runtime_chunk
    }
}

/// `group` exists, is initial, and names `chunk` as its runtime chunk.
pub open spec fn carries_runtime_of(
    groups: Map<ChunkGroupUkey, ChunkGroup>,
    chunk: ChunkUkey,
    group: ChunkGroupUkey,
) -> bool {
    groups.contains_key(group) && groups[group].initial && groups[group].runtime_chunk == chunk
}

impl Chunk {
    /// The chunk is the runtime chunk of an initial group that it belongs to.
    pub open spec fn spec_has_runtime(&self, groups: Map<ChunkGroupUkey, ChunkGroup>) -> bool {
        exists|i: int|
            0 <= i < self.groups@.len() && carries_runtime_of(
                groups,
                self.ukey,
                #[trigger] self.groups@[i],
            )
    }

    /// Whether the chunk supplies the runtime itself.
    pub fn has_runtime(&self, chunk_group_by_ukey: &ChunkGroupByUkey) -> (has: bool)
        ensures
            has == self.spec_has_runtime(chunk_group_by_ukey@),
    {
        let mut i: usize = 0;
        while i < self.groups.len()
            invariant
                i <= self.groups.len(),
                forall|j: int|
                    0 <= j < i ==> !carries_runtime_of(
                        chunk_group_by_ukey@,
                        self.ukey,
                        #[trigger] self.groups@[j],
                    ),
            decreases self.groups.len() - i,
        {
            let found: Option<&ChunkGroup> = chunk_group_by_ukey.get(&self.groups[i]);
            if let Some(group) = found {
                if group.is_initial() && group.get_runtime_chunk() == self.ukey {
                    return true;
                }
            }
            i = i + 1;
        }
        false
    }

    /// The name that a file-name template sees: the name, or else the id.
    pub open spec fn spec_name_for_filename_template(&self) -> Option<Seq<char>> {
        if self.name is Some {
            text_of(self.name)
        } else {
            text_of(self.id)
        }
    }

    /// The name that a file-name template is given for the chunk.
    pub fn name_for_filename_template(&self) -> (name: Option<String>)
        ensures
            text_of(name) == self.spec_name_for_filename_template(),
    {
        match &self.name {
            Some(name) => Some(name.clone()),
            None => match &self.id {
                Some(id) => Some(id.clone()),
                None => None,
            },
        }
    }

    /// The content hash as it appears in file names.
    pub fn get_render_hash(&self) -> (hash: String)
        ensures
            hash@ == self.hash@,
    {
        self.hash.clone()
    }

    /// Whether the chunk holds at least one entry module.
    pub fn has_entry_module(&self, chunk_graph: &ChunkGraph) -> (has: bool)
        ensures
            has == (chunk_graph.entries_of(self.ukey).len() > 0),
    {
        chunk_graph.get_number_of_entry_modules(&self.ukey) > 0
    }
}

/// The entry modules of one chunk, each with the chunk group that it starts,
/// in the order in which they were declared. No module occurs twice.
pub struct EntryModules {
    entries: Vec<(ModuleIdentifier, ChunkGroupUkey)>,
}

/// No module occurs twice in `entries`.
pub open spec fn distinct_modules(entries: Seq<(ModuleIdentifier, ChunkGroupUkey)>) -> bool {
    forall|i: int, j: int|
        0 <= i < j < entries.len() ==> (#[trigger] entries[i]).0 != (#[trigger] entries[j]).0
}

impl View for EntryModules {
    type V = Seq<(ModuleIdentifier, ChunkGroupUkey)>;

    closed spec fn view(&self) -> Seq<(ModuleIdentifier, ChunkGroupUkey)> {
        self.entries@
    }
}

impl EntryModules {
    #[verifier::type_invariant]
    spec fn distinct(&self) -> bool {
        distinct_modules(self.entries@)
    }

    /// No entry modules.
    pub fn new() -> (entries: EntryModules)
        ensures
            entries@ == Seq::<(ModuleIdentifier, ChunkGroupUkey)>::empty(),
    {
        EntryModules { entries: Vec::new() }
    }

    /// What `insert` leaves: a module that is already declared keeps its place
    /// and gets the new group; a new module goes to the end.
    pub open spec fn inserted(
        entries: Seq<(ModuleIdentifier, ChunkGroupUkey)>,
        module: ModuleIdentifier,
        group: ChunkGroupUkey,
    ) -> Seq<(ModuleIdentifier, ChunkGroupUkey)> {
        if exists|i: int| 0 <= i < entries.len() && (#[trigger] entries[i]).0 == module {
            let at = choose|i: int| 0 <= i < entries.len() && (#[trigger] entries[i]).0 == module;
            entries.update(at, (module, group))
        } else {
            entries.push((module, group))
        }
    }

    /// Declares `module` as an entry module that starts `group`.
    pub fn insert(&mut self, module: ModuleIdentifier, group: ChunkGroupUkey)
        ensures
            final(self)@ == Self::inserted(old(self)@, module, group),
            distinct_modules(final(self)@),
    {
        proof {
            use_type_invariant(&*self);
        }
        let ghost before = self.entries@;
        let mut rebuilt: Vec<(ModuleIdentifier, ChunkGroupUkey)> = Vec::new();
        let mut found: bool = false;
        let mut i: usize = 0;
        while i < self.entries.len()
            invariant
                i <= self.entries.len(),
                self.entries@ == before,
                distinct_modules(before),
                rebuilt@.len() == i,
                found <==> exists|j: int| 0 <= j < i && (#[trigger] before[j]).0 == module,
                forall|j: int|
                    0 <= j < i ==> #[trigger] rebuilt@[j] == if before[j].0 == module {
                        (module, group)
                    } else {
                        before[j]
                    },
            decreases self.entries.len() - i,
        {
            let entry: (ModuleIdentifier, ChunkGroupUkey) = self.entries[i];
            if entry.0 == module {
                found = true;
                rebuilt.push((module, group));
            } else {
                rebuilt.push(entry);
            }
            i = i + 1;
        }
        if !found {
            rebuilt.push((module, group));
        }
        proof {
            if found {
                let at = choose|k: int| 0 <= k < before.len() && (#[trigger] before[k]).0 == module;
                assert forall|j: int| 0 <= j < before.len() && j != at implies (
                #[trigger] before[j]).0 != module by {
                    if j < at {
                        assert(before[j].0 != before[at].0);
                    } else {
                        assert(before[at].0 != before[j].0);
                    }
                }
                assert(rebuilt@ =~= before.update(at, (module, group)));
            } else {
                assert(rebuilt@ =~= before.push((module, group)));
            }
            assert(distinct_modules(rebuilt@)) by {
                assert forall|x: int, y: int| 0 <= x < y < rebuilt@.len() implies (
                #[trigger] rebuilt@[x]).0 != (#[trigger] rebuilt@[y]).0 by {
                    if y < before.len() {
                        assert(before[x].0 != before[y].0);
                    } else {
                        assert(before[x].0 != module);
                    }
                }
            }
        }
        self.entries = rebuilt;
    }

    /// The number of entry modules.
    pub fn len(&self) -> (len: usize)
        ensures
            len == self@.len(),
            distinct_modules(self@),
    {
        proof {
            use_type_invariant(self);
        }
        self.entries.len()
    }

    /// Whether there is no entry module.
    pub fn is_empty(&self) -> (none: bool)
        ensures
            none == (self@.len() == 0),
    {
        self.entries.len() == 0
    }

    /// The entry at `index` in declaration order.
    pub fn get(&self, index: usize) -> (entry: Option<(ModuleIdentifier, ChunkGroupUkey)>)
        ensures
            entry == if index < self@.len() {
                Some(self@[index as int])
            } else {
                None
            },
    {
        if index < self.entries.len() {
            Some(self.entries[index])
        } else {
            None
        }
    }
}

/// What the chunk graph knows of each chunk and module.
pub struct ChunkGraph {
    /// The entry modules of each chunk that has any.
    pub entry_modules: HashMap<ChunkUkey, EntryModules>,
    /// The runtime modules registered for each chunk, in registration order.
    pub runtime_modules: HashMap<ChunkUkey, Vec<RuntimeModule>>,
    /// The stable id of each module that has one.
    pub module_ids: HashMap<ModuleIdentifier, String>,
}

impl ChunkGraph {
    /// The entry modules of `chunk` in declaration order; none for a chunk
    /// that the graph has no entry modules for.
    pub open spec fn entries_of(&self, chunk: ChunkUkey) -> Seq<(ModuleIdentifier, ChunkGroupUkey)> {
        if self.entry_modules@.contains_key(chunk) {
            self.entry_modules@[chunk]@
        } else {
            Seq::empty()
        }
    }

    /// The runtime modules of `chunk` in registration order.
    pub open spec fn runtime_modules_of(&self, chunk: ChunkUkey) -> Seq<RuntimeModule> {
        if self.runtime_modules@.contains_key(chunk) {
            self.runtime_modules@[chunk]@
        } else {
            Seq::empty()
        }
    }

    /// The stable id of `module`, if it has one.
    pub open spec fn module_id_of(&self, module: ModuleIdentifier) -> Option<Seq<char>> {
        if self.module_ids@.contains_key(module) {
            Some(self.module_ids@[module]@)
        } else {
            None
        }
    }

    /// The entry modules of `chunk`, each with its chunk group, in declaration
    /// order, if the graph has any for the chunk.
    pub fn get_chunk_entry_modules_with_chunk_group_iterable(&self, chunk: &ChunkUkey) -> (entries:
        Option<&EntryModules>)
        ensures
            match entries {
                Some(e) => self.entry_modules@.contains_key(*chunk) && e@ == self.entries_of(*chunk),
                None => !self.entry_modules@.contains_key(*chunk),
            },
    {
        self.entry_modules.get(chunk)
    }

    /// The number of entry modules of `chunk`.
    pub fn get_number_of_entry_modules(&self, chunk: &ChunkUkey) -> (count: usize)
        ensures
            count == self.entries_of(*chunk).len(),
    {
        match self.entry_modules.get(chunk) {
            Some(entries) => entries.len(),
            None => 0,
        }
    }

    /// The runtime modules registered for `chunk`, in registration order, if
    /// the graph has any for the chunk.
    pub fn get_chunk_runtime_modules_in_order(&self, chunk: &ChunkUkey) -> (modules: Option<
        &Vec<RuntimeModule>,
    >)
        ensures
            match modules {
                Some(m) => self.runtime_modules@.contains_key(*chunk) && m@
                    == self.runtime_modules_of(*chunk),
                None => !self.runtime_modules@.contains_key(*chunk),
            },
    {
        self.runtime_modules.get(chunk)
    }

    /// The stable id of `module`.
    pub fn get_module_id(&self, module: &ModuleIdentifier) -> (id: Option<&String>)
        ensures
            text_of_ref(id) == self.module_id_of(*module),
    {
        self.module_ids.get(module)
    }
}

/// The text of an optional borrowed string.
pub open spec fn text_of_ref(text: Option<&String>) -> Option<Seq<char>> {
    match text {
        Some(s) => Some(s@),
        None => None,
    }
}

/// The read-only view of a compilation that this crate works on.
pub struct Compilation {
    pub chunk_by_ukey: ChunkByUkey,
    pub chunk_group_by_ukey: ChunkGroupByUkey,
    pub chunk_graph: ChunkGraph,
}

} // verus!

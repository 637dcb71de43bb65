//! Runtime modules: synthesized code units that a rule registers for a chunk,
//! and the ordered registry that holds those of one chunk.

use crate::runtime_globals::RuntimeGlobals;
use vstd::prelude::*;

verus! {

/// A synthesized code unit that provides one runtime capability.
#[derive(Clone, Copy, Debug, PartialEq, Eq, Structural)]
pub enum RuntimeModule {
    /// Hands the module-loading function to the chunk that asks for it.
    ExportWebpackRequire,
    /// Loads further chunks; its code depends on the capabilities in use.
    ModuleChunkLoading(RuntimeGlobals),
}

/// The two modules are of one kind, whatever they were made with.
pub open spec fn same_kind(a: RuntimeModule, b: RuntimeModule) -> bool {
    match (a, b) {
        (RuntimeModule::ExportWebpackRequire, RuntimeModule::ExportWebpackRequire) => true,
        (RuntimeModule::ModuleChunkLoading(_), RuntimeModule::ModuleChunkLoading(_)) => true,
        _ => false,
    }
}

/// No two modules of the registry are of one kind.
pub open spec fn distinct_kinds(modules: Seq<RuntimeModule>) -> bool {
    forall|i: int, j: int|
        0 <= i < j < modules.len() ==> !same_kind(#[trigger] modules[i], #[trigger] modules[j])
}

/// The registry holds a module of the kind of `module`.
pub open spec fn has_kind(modules: Seq<RuntimeModule>, module: RuntimeModule) -> bool {
    exists|i: int| 0 <= i < modules.len() && same_kind(#[trigger] modules[i], module)
}

/// The place of the first module of the kind of `module`, or the length of
/// the registry where it holds none.
pub open spec fn place_of(modules: Seq<RuntimeModule>, module: RuntimeModule) -> int
    decreases modules.len(),
{
    if modules.len() == 0 {
        0
    } else if same_kind(modules[0], module) {
        0
    } else {
        1 + place_of(modules.drop_first(), module)
    }
}

/// The registry after `module` is registered: a module of its kind that is
/// there already keeps its place and is replaced; otherwise `module` comes
/// last.
pub open spec fn registered(modules: Seq<RuntimeModule>, module: RuntimeModule) -> Seq<
    RuntimeModule,
> {
    let at = place_of(modules, module);
    if at < modules.len() {
        modules.update(at, module)
    } else {
        modules.push(module)
    }
}

/// Nothing that `before` holds has left or moved: `after` holds a module of
/// the same kind in each place of `before`.
pub open spec fn extends(before: Seq<RuntimeModule>, after: Seq<RuntimeModule>) -> bool {
    before.len() <= after.len() && forall|i: int|
        0 <= i < before.len() ==> same_kind(#[trigger] before[i], after[i])
}

/// What `place_of` finds: nothing of the kind stands before the place, and
/// the place, where it is inside the registry, holds a module of the kind.
pub proof fn lemma_place_of(modules: Seq<RuntimeModule>, module: RuntimeModule)
    ensures
        0 <= place_of(modules, module) <= modules.len(),
        forall|i: int|
            0 <= i < place_of(modules, module) ==> !same_kind(#[trigger] modules[i], module),
        place_of(modules, module) < modules.len() ==> same_kind(
            modules[place_of(modules, module)],
            module,
        ),
        has_kind(modules, module) <==> place_of(modules, module) < modules.len(),
    decreases modules.len(),
{
    if modules.len() > 0 && !same_kind(modules[0], module) {
        let rest = modules.drop_first();
        lemma_place_of(rest, module);
        let at = place_of(modules, module);
        assert forall|i: int| 0 <= i < at implies !same_kind(#[trigger] modules[i], module) by {
            if i > 0 {
                assert(rest[i - 1] == modules[i]);
            }
        }
        if at < modules.len() {
            assert(rest[at - 1] == modules[at]);
        }
        if has_kind(modules, module) {
            let i = choose|i: int| 0 <= i < modules.len() && same_kind(#[trigger] modules[i], module);
            assert(rest[i - 1] == modules[i]);
            assert(has_kind(rest, module));
        }
    }
}

/// Registering keeps what was registered in its place, and keeps the kinds
/// apart where they were apart.
pub proof fn lemma_registered_extends(modules: Seq<RuntimeModule>, module: RuntimeModule)
    ensures
        extends(modules, registered(modules, module)),
        has_kind(registered(modules, module), module),
        distinct_kinds(modules) ==> distinct_kinds(registered(modules, module)),
{
    lemma_place_of(modules, module);
    let at = place_of(modules, module);
    let after = registered(modules, module);
    assert(same_kind(after[at], module));
    if distinct_kinds(modules) {
        assert forall|i: int, j: int| 0 <= i < j < after.len() implies !same_kind(
            #[trigger] after[i],
            #[trigger] after[j],
        ) by {
            if at < modules.len() {
                if i == at {
                    assert(!same_kind(modules[at], modules[j]));
                } else if j == at {
                    assert(!same_kind(modules[i], modules[at]));
                } else {
                    assert(!same_kind(modules[i], modules[j]));
                }
            } else {
                if j < modules.len() {
                    assert(!same_kind(modules[i], modules[j]));
                }
            }
        }
    }
}

/// Registering the same module twice is registering it once.
pub proof fn lemma_registered_idempotent(modules: Seq<RuntimeModule>, module: RuntimeModule)
    ensures
        registered(registered(modules, module), module) == registered(modules, module),
{
    lemma_place_of(modules, module);
    let once = registered(modules, module);
    let at = place_of(modules, module);
    lemma_place_of(once, module);
    let again = place_of(once, module);
    assert(same_kind(once[at], module));
    assert(again == at) by {
        if again < at {
            assert(!same_kind(modules[again], module));
        }
    }
    assert(registered(once, module) =~= once);
}

/// Registering a module that the registry holds already, at the place of its
/// kind, changes nothing.
pub proof fn lemma_registered_again(modules: Seq<RuntimeModule>, module: RuntimeModule, at: int)
    requires
        0 <= at < modules.len(),
        modules[at] == module,
        forall|i: int| 0 <= i < at ==> !same_kind(#[trigger] modules[i], module),
    ensures
        registered(modules, module) == modules,
{
    lemma_place_of(modules, module);
    let place = place_of(modules, module);
    assert(has_kind(modules, module)) by {
        assert(same_kind(modules[at], module));
    }
    if place < at {
        assert(!same_kind(modules[place], module));
    }
    assert(registered(modules, module) =~= modules);
}

/// Every registry extends itself.
pub proof fn lemma_extends_reflexive(a: Seq<RuntimeModule>)
    ensures
        extends(a, a),
{
    assert forall|i: int| 0 <= i < a.len() implies same_kind(#[trigger] a[i], a[i]) by {
        match a[i] {
            RuntimeModule::ExportWebpackRequire => {},
            RuntimeModule::ModuleChunkLoading(_) => {},
        }
    }
}

/// `extends` is transitive.
pub proof fn lemma_extends_transitive(
    a: Seq<RuntimeModule>,
    b: Seq<RuntimeModule>,
    c: Seq<RuntimeModule>,
)
    requires
        extends(a, b),
        extends(b, c),
    ensures
        extends(a, c),
{
    assert forall|i: int| 0 <= i < a.len() implies same_kind(#[trigger] a[i], c[i]) by {
        assert(same_kind(a[i], b[i]));
        assert(same_kind(b[i], c[i]));
    }
}

/// Whether the two modules are of one kind.
pub fn is_same_kind(a: &RuntimeModule, b: &RuntimeModule) -> (same: bool)
    ensures
        same == same_kind(*a, *b),
{
    match (a, b) {
        (RuntimeModule::ExportWebpackRequire, RuntimeModule::ExportWebpackRequire) => true,
        (RuntimeModule::ModuleChunkLoading(_), RuntimeModule::ModuleChunkLoading(_)) => true,
        _ => false,
    }
}

/// Registers `module` for the chunk whose registry `modules` is. A kind is
/// registered once: a second module of a kind takes the place of the first.
pub fn add_runtime_module(modules: &mut Vec<RuntimeModule>, module: RuntimeModule)
    ensures
        final(modules)@ == registered(old(modules)@, module),
        extends(old(modules)@, final(modules)@),
        distinct_kinds(old(modules)@) ==> distinct_kinds(final(modules)@),
{
    proof {
        lemma_place_of(modules@, module);
        lemma_registered_extends(modules@, module);
    }
    let mut i: usize = 0;
    while i < modules.len()
        invariant
            i <= modules.len(),
            modules@ == old(modules)@,
            forall|j: int| 0 <= j < i ==> !same_kind(#[trigger] modules@[j], module),
        decreases modules.len() - i,
    {
        if is_same_kind(&modules[i], &module) {
            proof {
                lemma_place_of(modules@, module);
                lemma_registered_extends(modules@, module);
                let at = place_of(modules@, module);
                assert(same_kind(modules@[i as int], module));
                assert(has_kind(modules@, module));
                if at < i {
                    assert(!same_kind(modules@[at], module));
                }
            }
            modules.set(i, module);
            return ;
        }
        i = i + 1;
    }
    proof {
        let at = place_of(modules@, module);
        if at < modules@.len() {
            assert(!same_kind(modules@[at], module));
        }
    }
    modules.push(module);
}

/// Whether the two registries hold the same modules in the same places.
pub fn same_modules(a: &Vec<RuntimeModule>, b: &Vec<RuntimeModule>) -> (same: bool)
    ensures
        same == (a@ == b@),
{
    if a.len() != b.len() {
        return false;
    }
    let mut i: usize = 0;
    while i < a.len()
        invariant
            i <= a.len(),
            a.len() == b.len(),
            forall|j: int| 0 <= j < i ==> a@[j] == b@[j],
        decreases a.len() - i,
    {
        if a[i] != b[i] {
            return false;
        }
        i = i + 1;
    }
    proof {
        assert(a@ =~= b@);
    }
    true
}

} // verus!

//! Requirement resolution for one chunk: the rules of all plugins, run in
//! order, pass after pass, until a pass changes nothing.

use crate::compilation::Compilation;
use crate::error::Error;
use crate::plugin::{
    grows_to, AdditionalChunkRuntimeRequirementsArgs, ChunkRequirements, Plugin,
};
use crate::runtime_globals::{lemma_subset_reflexive, lemma_subset_transitive, RuntimeGlobals};
use crate::runtime_module::{
    lemma_extends_reflexive, lemma_extends_transitive, same_modules, RuntimeModule,
};
use vstd::prelude::*;

verus! {

/// The number of passes after which resolution gives up.
pub const MAX_PASSES: usize = 128;

/// How a pass, or a resolution, ended: the requirements that it left, and
/// whether it succeeded.
pub struct Outcome {
    pub state: ChunkRequirements,
    pub result: Result<(), Error>,
}

/// What one pass makes of `state`: the rule of each plugin is applied to what
/// the rules before it left. The first rule that fails ends the pass, and
/// what the rules before it did stays done.
pub open spec fn tree_pass<P: Plugin>(
    plugins: Seq<P>,
    compilation: &Compilation,
    state: ChunkRequirements,
) -> Outcome
    decreases plugins.len(),
{
    if plugins.len() == 0 {
        Outcome { state, result: Ok(()) }
    } else {
        let so_far = tree_pass(plugins.drop_last(), compilation, state);
        if so_far.result is Err {
            so_far
        } else {
            match plugins.last().tree_requirements(compilation, so_far.state) {
                Ok(next) => Outcome { state: next, result: Ok(()) },
                Err(e) => Outcome { state: so_far.state, result: Err(e) },
            }
        }
    }
}

/// What resolution makes of `state` when it may run `passes` passes. It ends
/// with the first pass that changes nothing, and has then succeeded; with the
/// first pass that fails, in that pass's error; and, where every pass allowed
/// has changed something, in an overrun.
pub open spec fn resolved<P: Plugin>(
    plugins: Seq<P>,
    compilation: &Compilation,
    state: ChunkRequirements,
    passes: nat,
) -> Outcome
    decreases passes,
{
    if passes == 0 {
        Outcome { state, result: Err(Error::FixedPointOverrun(state.chunk)) }
    } else {
        let pass = tree_pass(plugins, compilation, state);
        if pass.result is Err || pass.state == state {
            pass
        } else {
            resolved(plugins, compilation, pass.state, (passes - 1) as nat)
        }
    }
}

/// Requirements grow to themselves.
pub proof fn lemma_grows_reflexive(a: ChunkRequirements)
    ensures
        grows_to(a, a),
{
    lemma_subset_reflexive(a.runtime_requirements.bits);
    lemma_extends_reflexive(a.runtime_modules);
}

/// Growth is transitive.
pub proof fn lemma_grows_transitive(a: ChunkRequirements, b: ChunkRequirements, c: ChunkRequirements)
    requires
        grows_to(a, b),
        grows_to(b, c),
    ensures
        grows_to(a, c),
{
    lemma_subset_transitive(
        a.runtime_requirements.bits,
        b.runtime_requirements.bits,
        c.runtime_requirements.bits,
    );
    lemma_extends_transitive(a.runtime_modules, b.runtime_modules, c.runtime_modules);
}

/// Monotonicity of a pass: whatever the rules are and however the pass ends,
/// it takes no flag away and moves no registered runtime module.
pub proof fn lemma_tree_pass_grows<P: Plugin>(
    plugins: Seq<P>,
    compilation: &Compilation,
    state: ChunkRequirements,
)
    ensures
        grows_to(state, tree_pass(plugins, compilation, state).state),
    decreases plugins.len(),
{
    if plugins.len() == 0 {
        lemma_grows_reflexive(state);
    } else {
        lemma_tree_pass_grows(plugins.drop_last(), compilation, state);
        let so_far = tree_pass(plugins.drop_last(), compilation, state);
        if so_far.result is Ok {
            plugins.last().lemma_requirements_grow(compilation, so_far.state);
            if let Ok(next) = plugins.last().tree_requirements(compilation, so_far.state) {
                lemma_grows_transitive(state, so_far.state, next);
            }
        }
    }
}

/// Monotonicity of resolution: however resolution ends, the requirements that
/// it leaves hold every flag that it started from, and every runtime module
/// kind that was registered, in its place.
pub proof fn lemma_resolved_grows<P: Plugin>(
    plugins: Seq<P>,
    compilation: &Compilation,
    state: ChunkRequirements,
    passes: nat,
)
    ensures
        grows_to(state, resolved(plugins, compilation, state, passes).state),
    decreases passes,
{
    lemma_grows_reflexive(state);
    if passes > 0 {
        lemma_tree_pass_grows(plugins, compilation, state);
        let pass = tree_pass(plugins, compilation, state);
        if !(pass.result is Err || pass.state == state) {
            lemma_resolved_grows(plugins, compilation, pass.state, (passes - 1) as nat);
            lemma_grows_transitive(
                state,
                pass.state,
                resolved(plugins, compilation, pass.state, (passes - 1) as nat).state,
            );
        }
    }
}

/// Idempotence of resolution: what resolution settles on is a fixed point of
/// the rules. A pass over it succeeds, adds no flag and registers no runtime
/// module; and resolving it again, with any number of passes allowed, gives
/// it back.
pub proof fn lemma_resolved_is_fixed_point<P: Plugin>(
    plugins: Seq<P>,
    compilation: &Compilation,
    state: ChunkRequirements,
    passes: nat,
    again: nat,
)
    requires
        resolved(plugins, compilation, state, passes).result is Ok,
        again > 0,
    ensures
        tree_pass(plugins, compilation, resolved(plugins, compilation, state, passes).state)
            == resolved(plugins, compilation, state, passes),
        resolved(plugins, compilation, resolved(plugins, compilation, state, passes).state, again)
            == resolved(plugins, compilation, state, passes),
    decreases passes,
{
    if passes > 0 {
        let pass = tree_pass(plugins, compilation, state);
        if !(pass.result is Err || pass.state == state) {
            lemma_resolved_is_fixed_point(
                plugins,
                compilation,
                pass.state,
                (passes - 1) as nat,
                again,
            );
        }
    }
}

/// A pass that has failed among its first rules has failed for good.
proof fn lemma_failed_pass<P: Plugin>(
    plugins: Seq<P>,
    compilation: &Compilation,
    state: ChunkRequirements,
    upto: int,
)
    requires
        0 <= upto < plugins.len(),
        tree_pass(plugins.take(upto + 1), compilation, state).result is Err,
    ensures
        tree_pass(plugins, compilation, state) == tree_pass(
            plugins.take(upto + 1),
            compilation,
            state,
        ),
    decreases plugins.len(),
{
    if upto + 1 == plugins.len() {
        assert(plugins.take(upto + 1) =~= plugins);
    } else {
        assert(plugins.drop_last().take(upto + 1) =~= plugins.take(upto + 1));
        lemma_failed_pass(plugins.drop_last(), compilation, state, upto);
    }
}

/// Runs the rule of each plugin once, in order. The first failure ends the
/// pass; what the rules before it did stays done.
pub fn apply_tree_rules<P: Plugin>(
    plugins: &Vec<P>,
    compilation: &Compilation,
    args: &mut AdditionalChunkRuntimeRequirementsArgs,
) -> (result: Result<(), Error>)
    ensures
        (Outcome { state: final(args)@, result }) == tree_pass(plugins@, compilation, old(args)@),
        grows_to(old(args)@, final(args)@),
{
    let mut i: usize = 0;
    proof {
        assert(plugins@.take(0) =~= Seq::<P>::empty());
        lemma_tree_pass_grows(plugins@, compilation, args@);
    }
    while i < plugins.len()
        invariant
            i <= plugins.len(),
            tree_pass(plugins@.take(i as int), compilation, old(args)@) == (Outcome {
                state: args@,
                result: Ok(()),
            }),
            grows_to(old(args)@, tree_pass(plugins@, compilation, old(args)@).state),
        decreases plugins.len() - i,
    {
        proof {
            let next = plugins@.take(i + 1);
            assert(next.drop_last() =~= plugins@.take(i as int));
            assert(next.last() == plugins@[i as int]);
        }
        let result: Result<(), Error> = plugins[i].runtime_requirements_in_tree(compilation, args);
        match result {
            Ok(()) => {},
            Err(e) => {
                proof {
                    lemma_failed_pass(plugins@, compilation, old(args)@, i as int);
                }
                return Err(e);
            },
        }
        i = i + 1;
    }
    proof {
        assert(plugins@.take(plugins@.len() as int) =~= plugins@);
    }
    Ok(())
}

/// A copy of the registry `modules`.
fn copy_modules(modules: &Vec<RuntimeModule>) -> (copy: Vec<RuntimeModule>)
    ensures
        copy@ == modules@,
{
    let mut copy: Vec<RuntimeModule> = Vec::new();
    let mut i: usize = 0;
    while i < modules.len()
        invariant
            i <= modules.len(),
            copy@ == modules@.take(i as int),
        decreases modules.len() - i,
    {
        copy.push(modules[i]);
        proof {
            assert(copy@ =~= modules@.take(i + 1));
        }
        i = i + 1;
    }
    proof {
        assert(modules@.take(modules@.len() as int) =~= modules@);
    }
    copy
}

/// Resolves the runtime requirements of one chunk within `max_passes` passes:
/// runs the rules of `plugins` in order, pass after pass, until a pass adds
/// no flag and registers no runtime module.
///
/// Fails with the error of the first rule that fails, and with an overrun
/// where `max_passes` passes have each changed something. However it ends, no
/// flag is taken away and no registered module is moved; where it succeeds,
/// a further pass over what it leaves would change nothing.
pub fn resolve_runtime_requirements_within<P: Plugin>(
    plugins: &Vec<P>,
    compilation: &Compilation,
    args: &mut AdditionalChunkRuntimeRequirementsArgs,
    max_passes: usize,
) -> (result: Result<(), Error>)
    ensures
        (Outcome { state: final(args)@, result }) == resolved(
            plugins@,
            compilation,
            old(args)@,
            max_passes as nat,
        ),
        grows_to(old(args)@, final(args)@),
        result is Ok ==> tree_pass(plugins@, compilation, final(args)@) == (Outcome {
            state: final(args)@,
            result: Ok(()),
        }),
{
    let mut passes: usize = 0;
    proof {
        lemma_resolved_grows(plugins@, compilation, args@, max_passes as nat);
    }
    while passes < max_passes
        invariant
            passes <= max_passes,
            resolved(plugins@, compilation, old(args)@, max_passes as nat) == resolved(
                plugins@,
                compilation,
                args@,
                (max_passes - passes) as nat,
            ),
            grows_to(
                old(args)@,
                resolved(plugins@, compilation, old(args)@, max_passes as nat).state,
            ),
        decreases max_passes - passes,
    {
        let ghost before = args@;
        let flags_before: RuntimeGlobals = args.runtime_requirements;
        let modules_before: Vec<RuntimeModule> = copy_modules(&args.runtime_modules);
        let chunk_before: usize = args.chunk;
        let result: Result<(), Error> = apply_tree_rules(plugins, compilation, args);
        match result {
            Err(e) => {
                return Err(e);
            },
            Ok(()) => {
                let settled: bool = args.runtime_requirements == flags_before && same_modules(
                    &args.runtime_modules,
                    &modules_before,
                ) && args.chunk == chunk_before;
                if settled {
                    proof {
                        assert(args@ == before);
                    }
                    return Ok(());
                }
            },
        }
        passes = passes + 1;
    }
    Err(Error::FixedPointOverrun(args.chunk))
}

/// Resolves the runtime requirements of one chunk, as
/// `resolve_runtime_requirements_within` does, within `MAX_PASSES` passes.
pub fn resolve_runtime_requirements<P: Plugin>(
    plugins: &Vec<P>,
    compilation: &Compilation,
    args: &mut AdditionalChunkRuntimeRequirementsArgs,
) -> (result: Result<(), Error>)
    ensures
        (Outcome { state: final(args)@, result }) == resolved(
            plugins@,
            compilation,
            old(args)@,
            MAX_PASSES as nat,
        ),
        grows_to(old(args)@, final(args)@),
        result is Ok ==> tree_pass(plugins@, compilation, final(args)@) == (Outcome {
            state: final(args)@,
            result: Ok(()),
        }),
{
    resolve_runtime_requirements_within(plugins, compilation, args, MAX_PASSES)
}

} // verus!

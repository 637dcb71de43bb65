//! Dependencies that ask for runtime capabilities: evaluated while the code of
//! a module is generated, they add their flags to what the chunk requires.

use crate::compilation::ModuleIdentifier;
use crate::error::Error;
use crate::runtime_globals::RuntimeGlobals;
use vstd::prelude::*;

verus! {

/// What code generation carries along for the chunk that it works on.
pub struct CodeGeneratableContext {
    /// The flags gathered so far. They are only ever added to.
    pub runtime_requirements: RuntimeGlobals,
}

/// What evaluating a dependency hands back for the code of its module.
#[derive(Debug, Clone, Copy, PartialEq, Eq, Structural)]
pub struct CodeGeneratableResult {}

impl Default for CodeGeneratableResult {
    fn default() -> (result: CodeGeneratableResult)
        ensures
            result == (CodeGeneratableResult {  }),
    {
        CodeGeneratableResult {  }
    }
}

/// A node of the dependency graph.
pub trait Dependency {
    /// The module that owns the dependency, if one does.
    fn parent_module_identifier(&self) -> Option<&ModuleIdentifier>;
}

/// Something that takes part in code generation.
pub trait CodeGeneratable {
    fn generate(&self, code_generatable_context: &mut CodeGeneratableContext) -> Result<
        CodeGeneratableResult,
        Error,
    >;
}

/// A dependency whose whole effect is to require a fixed set of runtime
/// capabilities for the chunk. No module owns it, so it adds to what the
/// chunk requires and to no module's code.
#[derive(Debug, Eq, PartialEq, Structural, Clone, Copy, Hash)]
pub struct RuntimeRequirementsDependency {
    pub runtime_requirements: RuntimeGlobals,
}

impl Dependency for RuntimeRequirementsDependency {
    fn parent_module_identifier(&self) -> (parent: Option<&ModuleIdentifier>)
        ensures
            parent is None,
    {
        None
    }
}

impl CodeGeneratable for RuntimeRequirementsDependency {
    /// Adds the flags of the dependency to those of the chunk. Never fails,
    /// and takes no flag away.
    fn generate(&self, code_generatable_context: &mut CodeGeneratableContext) -> (result: Result<
        CodeGeneratableResult,
        Error,
    >)
        ensures
            result == Ok::<CodeGeneratableResult, Error>(CodeGeneratableResult {  }),
            final(code_generatable_context).runtime_requirements == old(
                code_generatable_context,
            ).runtime_requirements.spec_union(self.runtime_requirements),
            old(code_generatable_context).runtime_requirements.subset_of(
                final(code_generatable_context).runtime_requirements,
            ),
            final(code_generatable_context).runtime_requirements.spec_contains(
                self.runtime_requirements,
            ),
    {
        code_generatable_context.runtime_requirements.insert(self.runtime_requirements);
        Ok(CodeGeneratableResult::default())
    }
}

impl RuntimeRequirementsDependency {
    /// A dependency that requires `runtime_requirements`.
    pub fn new(runtime_requirements: RuntimeGlobals) -> (dependency: Self)
        ensures
            dependency.runtime_requirements == runtime_requirements,
    {
        Self { runtime_requirements }
    }
}

} // verus!

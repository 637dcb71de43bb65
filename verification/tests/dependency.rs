use chunk_runtime::dependency::{
    CodeGeneratable, CodeGeneratableContext, CodeGeneratableResult, Dependency,
    RuntimeRequirementsDependency,
};
use chunk_runtime::runtime_globals::RuntimeGlobals;

#[test]
fn dependency_keeps_its_flags() {
    let flags = RuntimeGlobals::require().union(RuntimeGlobals::base_uri());
    let dependency = RuntimeRequirementsDependency::new(flags);
    assert_eq!(dependency.runtime_requirements, flags);
    assert_eq!(dependency, RuntimeRequirementsDependency { runtime_requirements: flags });
}

#[test]
fn dependency_has_no_parent_module() {
    let dependency = RuntimeRequirementsDependency::new(RuntimeGlobals::require());
    assert_eq!(dependency.parent_module_identifier(), None);
}

#[test]
fn generate_unions_flags_into_the_chunk() {
    let dependency = RuntimeRequirementsDependency::new(
        RuntimeGlobals::ensure_chunk_handlers().union(RuntimeGlobals::base_uri()),
    );
    let mut context = CodeGeneratableContext {
        runtime_requirements: RuntimeGlobals::require().union(RuntimeGlobals::base_uri()),
    };
    assert_eq!(dependency.generate(&mut context), Ok(CodeGeneratableResult::default()));
    assert_eq!(context.runtime_requirements.bits(), 0x01 | 0x02 | 0x10);
    assert_eq!(dependency.generate(&mut context), Ok(CodeGeneratableResult {}));
    assert_eq!(context.runtime_requirements.bits(), 0x01 | 0x02 | 0x10);
}

#[test]
fn generate_of_empty_dependency_changes_nothing() {
    let dependency = RuntimeRequirementsDependency::new(RuntimeGlobals::empty());
    let mut context = CodeGeneratableContext { runtime_requirements: RuntimeGlobals::has_own_property() };
    assert!(dependency.generate(&mut context).is_ok());
    assert_eq!(context.runtime_requirements, RuntimeGlobals::has_own_property());
}

use webcodex::validation::{
    execution_purpose_for_validation_kind, ExecutionPurpose, ValidationCommandOptions,
    ValidationPlanArg,
};

#[test]
fn validation_kinds_imply_purposes() {
    assert_eq!(execution_purpose_for_validation_kind("test"), ExecutionPurpose::Test);
    assert_eq!(execution_purpose_for_validation_kind("format"), ExecutionPurpose::Format);
    assert_eq!(
        execution_purpose_for_validation_kind("lint"),
        ExecutionPurpose::Validation
    );
    assert_eq!(
        execution_purpose_for_validation_kind("tests"),
        ExecutionPurpose::Validation
    );
    assert_eq!(execution_purpose_for_validation_kind(""), ExecutionPurpose::Validation);
}

#[test]
fn plan_arguments_pass_raw_text() {
    assert_eq!(ValidationPlanArg::Literal("--lib").raw(), "--lib");
    assert_eq!(
        ValidationPlanArg::Value("a b'c".to_string()).raw(),
        "a b'c"
    );
}

#[test]
fn default_options_set_nothing() {
    let o = ValidationCommandOptions::default();
    assert!(!o.check);
    assert!(o.filter.is_none() && o.package.is_none() && o.go_packages.is_none());
    assert!(o.cargo_packages.is_none() && o.no_run.is_none() && o.lib.is_none());
}

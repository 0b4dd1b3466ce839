//! Structured validation adapter vocabulary: command options, plan
//! arguments, and the execution purpose that a validation kind implies.

use vstd::prelude::*;

use crate::text::text_equals;

verus! {

/// Options of a structured validation command.
#[derive(Debug, Clone)]
pub struct ValidationCommandOptions {
    pub check: bool,
    pub filter: Option<String>,
    pub lib: Option<bool>,
    pub all_targets: Option<bool>,
    pub all_features: Option<bool>,
    pub no_default_features: Option<bool>,
    pub features: Option<String>,
    pub package: Option<String>,
    /// Canonical sorted, duplicate-free package scope for `cargo_check`.
    pub cargo_packages: Option<Vec<String>>,
    pub no_run: Option<bool>,
    /// First-class `go_test` package scope. Other validation adapters must
    /// reject this Go-specific option rather than silently ignoring it.
    pub go_packages: Option<Vec<String>>,
}

impl Default for ValidationCommandOptions {
    /// No check mode and no option set.
    fn default() -> (o: Self)
        ensures
            !o.check,
            o.filter is None,
            o.lib is None,
            o.all_targets is None,
            o.all_features is None,
            o.no_default_features is None,
            o.features is None,
            o.package is None,
            o.cargo_packages is None,
            o.no_run is None,
            o.go_packages is None,
    {
        ValidationCommandOptions {
            check: false,
            filter: None,
            lib: None,
            all_targets: None,
            all_features: None,
            no_default_features: None,
            features: None,
            package: None,
            cargo_packages: None,
            no_run: None,
            go_packages: None,
        }
    }
}

/// One argument of a read-only validation plan: a fixed literal of the
/// adapter, or a caller-supplied value.
#[derive(Debug, Clone, PartialEq, Eq)]
pub enum ValidationPlanArg {
    Literal(&'static str),
    Value(String),
}

/// The argument as passed to the program, unescaped.
pub open spec fn plan_arg_text(arg: ValidationPlanArg) -> Seq<char> {
    match arg {
        ValidationPlanArg::Literal(value) => value@,
        ValidationPlanArg::Value(value) => value@,
    }
}

impl ValidationPlanArg {
    /// The argument as passed to the program, unescaped.
    pub fn raw(&self) -> (s: String)
        ensures
            s@ == plan_arg_text(*self),
    {
        match self {
            ValidationPlanArg::Literal(value) => (*value).to_owned(),
            ValidationPlanArg::Value(value) => value.clone(),
        }
    }
}

/// The evidence intent of an execution.
#[derive(Debug, Clone, Copy, PartialEq, Eq, Structural)]
pub enum ExecutionPurpose {
    Validation,
    Test,
    Format,
}

/// The purpose that a validation kind implies.
pub open spec fn purpose_of_kind(validation_kind: Seq<char>) -> ExecutionPurpose {
    if validation_kind == "test"@ {
        ExecutionPurpose::Test
    } else if validation_kind == "format"@ {
        ExecutionPurpose::Format
    } else {
        ExecutionPurpose::Validation
    }
}

/// Only the kind `test` means a test run and only the kind `format` means
/// formatting; every other kind (`check`, `lint`, `build`, ...) is validation.
pub proof fn lemma_purpose_of_kind(validation_kind: Seq<char>)
    ensures
        purpose_of_kind(validation_kind) == ExecutionPurpose::Test <==> validation_kind == "test"@,
        purpose_of_kind(validation_kind) == ExecutionPurpose::Format <==> validation_kind == "format"@,
        purpose_of_kind(validation_kind) == ExecutionPurpose::Validation <==> (validation_kind != "test"@
            && validation_kind != "format"@),
{
    reveal_strlit("test");
    reveal_strlit("format");
    assert("test"@.len() != "format"@.len());
}

/// Canonical mapping from structured validation classification to execution
/// evidence intent. Tool selection determines this purpose; callers do not.
pub fn execution_purpose_for_validation_kind(validation_kind: &str) -> (p: ExecutionPurpose)
    ensures
        p == purpose_of_kind(validation_kind@),
        p == ExecutionPurpose::Test <==> validation_kind@ == "test"@,
        p == ExecutionPurpose::Format <==> validation_kind@ == "format"@,
        p == ExecutionPurpose::Validation <==> (validation_kind@ != "test"@ && validation_kind@ != "format"@),
{
    proof {
        lemma_purpose_of_kind(validation_kind@);
    }
    if text_equals(validation_kind, "test") {
        ExecutionPurpose::Test
    } else if text_equals(validation_kind, "format") {
        ExecutionPurpose::Format
    } else {
        ExecutionPurpose::Validation
    }
}

} // verus!

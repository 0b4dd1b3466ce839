//! Verified core of the WebCodex Browser runtime types, the durable Agent Task
//! Attempt reference ledger, and the structured validation adapter vocabulary.
//!
//! The structured validation plan (`ReadOnlyValidationPlan`,
//! `read_only_validation_plan`, `ValidationPlanArg::rendered`), the
//! `ValidationAdapter` trait, `ValidationFailureEvidence` and
//! `validation_adapter_for_tool` are not part of this crate: they rest on the
//! shell step, shell escaping and diagnostics types of the `webcodex_core`
//! crate and on the per-tool adapter modules, none of which is available here.
//!
//! The principal, identifier and proof formats in [`communication`] are this
//! crate's own model of the communication store: a principal digest is
//! `sha256:` followed by 64 lower-case hex digits, a principal kind is 1 to 64
//! characters of `[a-z_]`, an identifier is its prefix followed by 32
//! lower-case hex digits, and a proof (fence) is its prefix followed by 64.

pub mod text;
pub mod communication;
pub mod attempt_reference;
pub mod browser;
pub mod navigation;
pub mod validation;

//! Principals, identifier formats and errors of the durable communication store.

use vstd::prelude::*;

use crate::text::{has_prefixed_hex, is_prefixed_hex};

verus! {

/// Prefix of a principal digest; the digest continues with 64 lower-case hex digits.
pub const COMMUNICATION_PRINCIPAL_DIGEST_PREFIX: &'static str = "sha256:";

/// Prefix of a durable Agent identifier.
pub const DURABLE_AGENT_ID_PREFIX: &'static str = "wc_agent_";

/// Prefix of an Agent Task identifier.
pub const AGENT_TASK_ID_PREFIX: &'static str = "wc_agent_task_";

/// Prefix of an Agent Task Attempt identifier.
pub const AGENT_TASK_ATTEMPT_ID_PREFIX: &'static str = "wc_agent_task_attempt_";

/// Prefix of an Agent Task Attempt fence (a bearer proof).
pub const AGENT_TASK_ATTEMPT_FENCE_PREFIX: &'static str = "wc_agent_task_fence_";

/// Hex digits after the prefix of an identifier.
pub const IDENTIFIER_HEX_DIGITS: usize = 32;

/// Hex digits after the prefix of a proof or a principal digest.
pub const PROOF_HEX_DIGITS: usize = 64;

/// Longest accepted principal kind, in characters.
pub const MAX_PRINCIPAL_KIND_CHARS: usize = 64;

/// The authenticated owner of a namespace in the communication store.
#[derive(Debug, Clone, PartialEq, Eq)]
pub struct CommunicationPrincipal {
    pub kind: String,
    pub digest: String,
}

/// A refusal of the communication store: a stable code and a fixed message.
#[derive(Debug, Clone, PartialEq, Eq)]
pub struct CommunicationStoreError {
    pub code: &'static str,
    pub message: &'static str,
}

/// What a [`CommunicationStoreError`] says, as character sequences.
pub struct StoreErrorView {
    pub code: Seq<char>,
    pub message: Seq<char>,
}

impl View for CommunicationStoreError {
    type V = StoreErrorView;

    open spec fn view(&self) -> StoreErrorView {
        StoreErrorView { code: self.code@, message: self.message@ }
    }
}

pub open spec fn store_error(code: Seq<char>, message: Seq<char>) -> StoreErrorView {
    StoreErrorView { code, message }
}

/// The outcome of a check, with the error taken by its view.
pub open spec fn check_view(r: Result<(), CommunicationStoreError>) -> Result<(), StoreErrorView> {
    match r {
        Ok(()) => Ok(()),
        Err(e) => Err(e@),
    }
}

impl CommunicationStoreError {
    pub fn new(code: &'static str, message: &'static str) -> (e: Self)
        ensures
            e.code == code,
            e.message == message,
    {
        CommunicationStoreError { code, message }
    }

    pub fn code(&self) -> (c: &'static str)
        ensures
            c == self.code,
    {
        self.code
    }
}

/// A lower-case ASCII letter or `_`.
pub open spec fn is_kind_char(c: char) -> bool {
    ('a' <= c && c <= 'z') || c == '_'
}

/// A principal kind: 1 to 64 lower-case letters or underscores.
pub open spec fn is_principal_kind(kind: Seq<char>) -> bool {
    &&& 0 < kind.len() <= MAX_PRINCIPAL_KIND_CHARS
    &&& forall|i: int| 0 <= i < kind.len() ==> is_kind_char(#[trigger] kind[i])
}

pub open spec fn is_valid_principal(kind: Seq<char>, digest: Seq<char>) -> bool {
    &&& is_principal_kind(kind)
    &&& is_prefixed_hex(digest, COMMUNICATION_PRINCIPAL_DIGEST_PREFIX@, PROOF_HEX_DIGITS as nat)
}

pub open spec fn spec_validate_principal(kind: Seq<char>, digest: Seq<char>) -> Result<
    (),
    StoreErrorView,
> {
    if is_valid_principal(kind, digest) {
        Ok(())
    } else {
        Err(store_error("invalid_communication_principal"@, "communication principal is malformed"@))
    }
}

pub open spec fn spec_validate_id(value: Seq<char>, prefix: Seq<char>, code: Seq<char>) -> Result<
    (),
    StoreErrorView,
> {
    if is_prefixed_hex(value, prefix, IDENTIFIER_HEX_DIGITS as nat) {
        Ok(())
    } else {
        Err(store_error(code, "identifier is malformed"@))
    }
}

pub open spec fn spec_validate_proof(value: Seq<char>, prefix: Seq<char>, code: Seq<char>) -> Result<
    (),
    StoreErrorView,
> {
    if is_prefixed_hex(value, prefix, PROOF_HEX_DIGITS as nat) {
        Ok(())
    } else {
        Err(store_error(code, "proof is malformed"@))
    }
}

fn is_principal_kind_text(kind: &str) -> (r: bool)
    ensures
        r == is_principal_kind(kind@),
{
    let n = kind.unicode_len();
    if n == 0 || n > MAX_PRINCIPAL_KIND_CHARS {
        return false;
    }
    let mut i: usize = 0;
    while i < n
        invariant
            n == kind@.len(),
            i <= n,
            forall|j: int| 0 <= j < i ==> is_kind_char(#[trigger] kind@[j]),
        decreases n - i,
    {
        let c = kind.get_char(i);
        if !(('a' <= c && c <= 'z') || c == '_') {
            assert(!is_kind_char(kind@[i as int]));
            return false;
        }
        i = i + 1;
    }
    true
}

/// Refuses a principal whose kind or digest is malformed.
pub fn validate_communication_principal(principal: &CommunicationPrincipal) -> (r: Result<
    (),
    CommunicationStoreError,
>)
    ensures
        check_view(r) == spec_validate_principal(principal.kind@, principal.digest@),
{
    if is_principal_kind_text(principal.kind.as_str()) && has_prefixed_hex(
        principal.digest.as_str(),
        COMMUNICATION_PRINCIPAL_DIGEST_PREFIX,
        PROOF_HEX_DIGITS,
    ) {
        Ok(())
    } else {
        Err(
            CommunicationStoreError::new(
                "invalid_communication_principal",
                "communication principal is malformed",
            ),
        )
    }
}

/// Refuses an identifier that is not `prefix` followed by 32 lower-case hex digits.
pub fn validate_id(value: &str, prefix: &str, code: &'static str) -> (r: Result<
    (),
    CommunicationStoreError,
>)
    ensures
        check_view(r) == spec_validate_id(value@, prefix@, code@),
{
    if has_prefixed_hex(value, prefix, IDENTIFIER_HEX_DIGITS) {
        Ok(())
    } else {
        Err(CommunicationStoreError::new(code, "identifier is malformed"))
    }
}

/// Refuses a proof that is not `prefix` followed by 64 lower-case hex digits.
pub fn validate_proof(value: &str, prefix: &str, code: &'static str) -> (r: Result<
    (),
    CommunicationStoreError,
>)
    ensures
        check_view(r) == spec_validate_proof(value@, prefix@, code@),
{
    if has_prefixed_hex(value, prefix, PROOF_HEX_DIGITS) {
        Ok(())
    } else {
        Err(CommunicationStoreError::new(code, "proof is malformed"))
    }
}

} // verus!

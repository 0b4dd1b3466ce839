//! The Agent Task Attempt reference ledger: stable, principal-scoped indexes for
//! exact fenced Attempt tuples.
//!
//! A reference is issued once per exact tuple (task, attempt, assignee, fence,
//! controller generation) within a principal's namespace; reissuing the same
//! tuple returns the same row, a different tuple gets the next index, and an
//! issued index never changes what it names.

use vstd::prelude::*;

use crate::communication::{
    check_view, spec_validate_id, spec_validate_principal, spec_validate_proof, store_error,
    validate_communication_principal, validate_id, validate_proof, CommunicationPrincipal,
    CommunicationStoreError, StoreErrorView, AGENT_TASK_ATTEMPT_FENCE_PREFIX,
    AGENT_TASK_ATTEMPT_ID_PREFIX, AGENT_TASK_ID_PREFIX, DURABLE_AGENT_ID_PREFIX,
};
use crate::text::text_equals;

verus! {

/// One issued reference: its index and the exact tuple it names.
#[derive(Debug, Clone, PartialEq, Eq)]
pub struct AgentTaskAttemptReferenceRecord {
    pub ref_index: u64,
    pub task_id: String,
    pub attempt_id: String,
    pub assignee_agent_id: String,
    pub attempt_fence: String,
    pub attempt_controller_generation: i64,
}

/// An exact fenced Attempt tuple, as character sequences.
#[verifier::ext_equal]
pub struct AttemptTuple {
    pub task_id: Seq<char>,
    pub attempt_id: Seq<char>,
    pub assignee_agent_id: Seq<char>,
    pub attempt_fence: Seq<char>,
    pub attempt_controller_generation: i64,
}

/// A reference record, as character sequences.
#[verifier::ext_equal]
pub struct ReferenceView {
    pub ref_index: u64,
    pub tuple: AttemptTuple,
}

impl View for AgentTaskAttemptReferenceRecord {
    type V = ReferenceView;

    open spec fn view(&self) -> ReferenceView {
        ReferenceView {
            ref_index: self.ref_index,
            tuple: AttemptTuple {
                task_id: self.task_id@,
                attempt_id: self.attempt_id@,
                assignee_agent_id: self.assignee_agent_id@,
                attempt_fence: self.attempt_fence@,
                attempt_controller_generation: self.attempt_controller_generation,
            },
        }
    }
}

/// One stored row of the ledger: the owning principal, the record, and when it was issued.
#[derive(Debug, Clone)]
pub struct AttemptReferenceRow {
    pub principal_kind: String,
    pub principal_digest: String,
    pub record: AgentTaskAttemptReferenceRecord,
    pub created_at_unix_ms: i64,
}

#[verifier::ext_equal]
pub struct RowView {
    pub kind: Seq<char>,
    pub digest: Seq<char>,
    pub reference: ReferenceView,
    pub created_at_unix_ms: i64,
}

impl View for AttemptReferenceRow {
    type V = RowView;

    open spec fn view(&self) -> RowView {
        RowView {
            kind: self.principal_kind@,
            digest: self.principal_digest@,
            reference: self.record@,
            created_at_unix_ms: self.created_at_unix_ms,
        }
    }
}

pub open spec fn tuple(
    task_id: Seq<char>,
    attempt_id: Seq<char>,
    assignee_agent_id: Seq<char>,
    attempt_fence: Seq<char>,
    attempt_controller_generation: i64,
) -> AttemptTuple {
    AttemptTuple {
        task_id,
        attempt_id,
        assignee_agent_id,
        attempt_fence,
        attempt_controller_generation,
    }
}

/// The row belongs to the namespace of principal (`kind`, `digest`).
pub open spec fn in_namespace(row: RowView, kind: Seq<char>, digest: Seq<char>) -> bool {
    row.kind == kind && row.digest == digest
}

pub open spec fn same_tuple(a: AttemptTuple, b: AttemptTuple) -> bool {
    &&& a.task_id == b.task_id
    &&& a.attempt_id == b.attempt_id
    &&& a.assignee_agent_id == b.assignee_agent_id
    &&& a.attempt_fence == b.attempt_fence
    &&& a.attempt_controller_generation == b.attempt_controller_generation
}

pub open spec fn same_namespace(a: RowView, b: RowView) -> bool {
    a.kind == b.kind && a.digest == b.digest
}

/// The ledger's invariant: indexes lie in `1..=i64::MAX`, and within one
/// namespace no index and no tuple occurs twice.
pub open spec fn ledger_wf(rows: Seq<RowView>) -> bool {
    &&& forall|i: int|
        0 <= i < rows.len() ==> 1 <= #[trigger] rows[i].reference.ref_index <= i64::MAX
    &&& forall|i: int, j: int|
        0 <= i < j < rows.len() && same_namespace(#[trigger] rows[i], #[trigger] rows[j]) ==> {
            &&& rows[i].reference.ref_index != rows[j].reference.ref_index
            &&& !same_tuple(rows[i].reference.tuple, rows[j].reference.tuple)
        }
}

pub open spec fn tuple_at(rows: Seq<RowView>, kind: Seq<char>, digest: Seq<char>, t: AttemptTuple, i: int) -> bool {
    0 <= i < rows.len() && in_namespace(rows[i], kind, digest) && same_tuple(rows[i].reference.tuple, t)
}

pub open spec fn index_at(rows: Seq<RowView>, kind: Seq<char>, digest: Seq<char>, idx: u64, i: int) -> bool {
    0 <= i < rows.len() && in_namespace(rows[i], kind, digest) && rows[i].reference.ref_index == idx
}

/// The namespace already holds a reference for tuple `t`.
pub open spec fn has_tuple(rows: Seq<RowView>, kind: Seq<char>, digest: Seq<char>, t: AttemptTuple) -> bool {
    exists|i: int| #[trigger] tuple_at(rows, kind, digest, t, i)
}

/// The reference that the namespace holds for tuple `t`.
pub open spec fn tuple_reference(rows: Seq<RowView>, kind: Seq<char>, digest: Seq<char>, t: AttemptTuple) -> ReferenceView {
    rows[choose|i: int| #[trigger] tuple_at(rows, kind, digest, t, i)].reference
}

/// The namespace holds a reference with index `idx`.
pub open spec fn has_index(rows: Seq<RowView>, kind: Seq<char>, digest: Seq<char>, idx: u64) -> bool {
    exists|i: int| #[trigger] index_at(rows, kind, digest, idx, i)
}

/// The reference that the namespace holds under index `idx`.
pub open spec fn index_reference(rows: Seq<RowView>, kind: Seq<char>, digest: Seq<char>, idx: u64) -> ReferenceView {
    rows[choose|i: int| #[trigger] index_at(rows, kind, digest, idx, i)].reference
}

/// The largest index issued in the namespace, 0 when it is empty.
pub open spec fn max_index(rows: Seq<RowView>, kind: Seq<char>, digest: Seq<char>) -> nat
    decreases rows.len(),
{
    if rows.len() == 0 {
        0
    } else {
        let m = max_index(rows.drop_last(), kind, digest);
        let last = rows.last();
        if in_namespace(last, kind, digest) && last.reference.ref_index > m {
            last.reference.ref_index as nat
        } else {
            m
        }
    }
}

pub open spec fn store_unavailable() -> StoreErrorView {
    store_error("communication_store_unavailable"@, "Durable communication store is unavailable"@)
}

pub open spec fn invalid_reference() -> StoreErrorView {
    store_error("invalid_agent_task_attempt_ref"@, "attempt_ref is not a server-issued selector"@)
}

pub open spec fn invalid_generation() -> StoreErrorView {
    store_error(
        "invalid_agent_task_attempt_controller_generation"@,
        "attempt_controller_generation must be at least 1"@,
    )
}

/// The checks of a reference tuple, in order; the first that fails decides.
pub open spec fn spec_validate_reference_tuple(kind: Seq<char>, digest: Seq<char>, t: AttemptTuple) -> Result<(), StoreErrorView> {
    if spec_validate_principal(kind, digest) is Err {
        spec_validate_principal(kind, digest)
    } else if spec_validate_id(t.task_id, AGENT_TASK_ID_PREFIX@, "invalid_agent_task_id"@) is Err {
        spec_validate_id(t.task_id, AGENT_TASK_ID_PREFIX@, "invalid_agent_task_id"@)
    } else if spec_validate_id(
        t.attempt_id,
        AGENT_TASK_ATTEMPT_ID_PREFIX@,
        "invalid_agent_task_attempt_id"@,
    ) is Err {
        spec_validate_id(t.attempt_id, AGENT_TASK_ATTEMPT_ID_PREFIX@, "invalid_agent_task_attempt_id"@)
    } else if spec_validate_id(t.assignee_agent_id, DURABLE_AGENT_ID_PREFIX@, "invalid_agent_id"@) is Err {
        spec_validate_id(t.assignee_agent_id, DURABLE_AGENT_ID_PREFIX@, "invalid_agent_id"@)
    } else if spec_validate_proof(
        t.attempt_fence,
        AGENT_TASK_ATTEMPT_FENCE_PREFIX@,
        "invalid_agent_task_attempt_fence"@,
    ) is Err {
        spec_validate_proof(
            t.attempt_fence,
            AGENT_TASK_ATTEMPT_FENCE_PREFIX@,
            "invalid_agent_task_attempt_fence"@,
        )
    } else if t.attempt_controller_generation < 1 {
        Err(invalid_generation())
    } else {
        Ok(())
    }
}

/// What `get_or_create_agent_task_attempt_reference` does to the ledger and returns.
pub open spec fn spec_get_or_create(
    rows: Seq<RowView>,
    kind: Seq<char>,
    digest: Seq<char>,
    t: AttemptTuple,
    created_at_unix_ms: i64,
) -> (Seq<RowView>, Result<ReferenceView, StoreErrorView>) {
    if spec_validate_reference_tuple(kind, digest, t) is Err {
        (rows, Err(spec_validate_reference_tuple(kind, digest, t)->Err_0))
    } else if has_tuple(rows, kind, digest, t) {
        (rows, Ok(tuple_reference(rows, kind, digest, t)))
    } else if max_index(rows, kind, digest) >= i64::MAX {
        (rows, Err(store_unavailable()))
    } else {
        let r = ReferenceView { ref_index: (max_index(rows, kind, digest) + 1) as u64, tuple: t };
        (rows.push(RowView { kind, digest, reference: r, created_at_unix_ms }), Ok(r))
    }
}

/// What `lookup_agent_task_attempt_reference` returns.
pub open spec fn spec_lookup(rows: Seq<RowView>, kind: Seq<char>, digest: Seq<char>, idx: u64) -> Result<Option<ReferenceView>, StoreErrorView> {
    if spec_validate_principal(kind, digest) is Err {
        Err(spec_validate_principal(kind, digest)->Err_0)
    } else if idx == 0 || idx > i64::MAX {
        Err(invalid_reference())
    } else if has_index(rows, kind, digest, idx) {
        Ok(Some(index_reference(rows, kind, digest, idx)))
    } else {
        Ok(None)
    }
}

pub open spec fn reference_result_view(r: Result<AgentTaskAttemptReferenceRecord, CommunicationStoreError>) -> Result<ReferenceView, StoreErrorView> {
    match r {
        Ok(rec) => Ok(rec@),
        Err(e) => Err(e@),
    }
}

pub open spec fn lookup_result_view(r: Result<Option<AgentTaskAttemptReferenceRecord>, CommunicationStoreError>) -> Result<Option<ReferenceView>, StoreErrorView> {
    match r {
        Ok(Some(rec)) => Ok(Some(rec@)),
        Ok(None) => Ok(None),
        Err(e) => Err(e@),
    }
}

/// Every index issued in a namespace is at most its [`max_index`].
pub proof fn lemma_max_index_bounds(rows: Seq<RowView>, kind: Seq<char>, digest: Seq<char>)
    ensures
        forall|i: int|
            0 <= i < rows.len() && in_namespace(#[trigger] rows[i], kind, digest)
                ==> rows[i].reference.ref_index <= max_index(rows, kind, digest),
    decreases rows.len(),
{
    if rows.len() > 0 {
        lemma_max_index_bounds(rows.drop_last(), kind, digest);
        assert forall|i: int|
            0 <= i < rows.len() && in_namespace(#[trigger] rows[i], kind, digest)
                implies rows[i].reference.ref_index <= max_index(rows, kind, digest) by {
            if i < rows.len() - 1 {
                assert(rows.drop_last()[i] == rows[i]);
            }
        }
    }
}

/// Issuing keeps the ledger's invariant.
pub proof fn lemma_issue_preserves_wf(
    rows: Seq<RowView>,
    kind: Seq<char>,
    digest: Seq<char>,
    t: AttemptTuple,
    created_at_unix_ms: i64,
)
    requires
        ledger_wf(rows),
    ensures
        ledger_wf(spec_get_or_create(rows, kind, digest, t, created_at_unix_ms).0),
{
    let out = spec_get_or_create(rows, kind, digest, t, created_at_unix_ms);
    if out.0 != rows {
        let new_rows = out.0;
        lemma_max_index_bounds(rows, kind, digest);
        assert forall|a: int, b: int|
            0 <= a < b < new_rows.len() && same_namespace(#[trigger] new_rows[a], #[trigger] new_rows[b])
            implies new_rows[a].reference.ref_index != new_rows[b].reference.ref_index
                && !same_tuple(new_rows[a].reference.tuple, new_rows[b].reference.tuple) by {
            if b == rows.len() {
                assert(new_rows[a] == rows[a]);
                assert(in_namespace(rows[a], kind, digest));
                if same_tuple(new_rows[a].reference.tuple, new_rows[b].reference.tuple) {
                    assert(tuple_at(rows, kind, digest, t, a));
                }
            } else {
                assert(new_rows[a] == rows[a]);
                assert(new_rows[b] == rows[b]);
            }
        }
        assert forall|a: int| 0 <= a < new_rows.len()
            implies 1 <= #[trigger] new_rows[a].reference.ref_index <= i64::MAX by {
            if a < rows.len() {
                assert(new_rows[a] == rows[a]);
            }
        }
    }
}

/// A valid tuple that the namespace does not hold yet is always issued while
/// the namespace's indexes are below `i64::MAX`: the answer is a new
/// reference for exactly that tuple, whose index is one above every index
/// the namespace holds, and exactly one row is appended.
pub proof fn lemma_fresh_tuple_is_issued(
    rows: Seq<RowView>,
    kind: Seq<char>,
    digest: Seq<char>,
    t: AttemptTuple,
    created_at_unix_ms: i64,
)
    requires
        ledger_wf(rows),
        spec_validate_reference_tuple(kind, digest, t) is Ok,
        !has_tuple(rows, kind, digest, t),
        forall|i: int|
            0 <= i < rows.len() && in_namespace(#[trigger] rows[i], kind, digest)
                ==> rows[i].reference.ref_index < i64::MAX,
    ensures
        ({
            let (after, answer) = spec_get_or_create(rows, kind, digest, t, created_at_unix_ms);
            &&& answer is Ok
            &&& answer->Ok_0.tuple == t
            &&& answer->Ok_0.ref_index == max_index(rows, kind, digest) + 1
            &&& forall|i: int|
                0 <= i < rows.len() && in_namespace(#[trigger] rows[i], kind, digest)
                    ==> rows[i].reference.ref_index < answer->Ok_0.ref_index
            &&& after.len() == rows.len() + 1
            &&& after.take(rows.len() as int) == rows
            &&& after.last() == RowView { kind, digest, reference: answer->Ok_0, created_at_unix_ms }
        }),
{
    lemma_max_index_bounds(rows, kind, digest);
    lemma_max_index_attained(rows, kind, digest);
    let (after, answer) = spec_get_or_create(rows, kind, digest, t, created_at_unix_ms);
    assert(max_index(rows, kind, digest) < i64::MAX);
    assert(after.take(rows.len() as int) =~= rows);
}

/// The largest index of a namespace is 0 or an index the namespace holds.
proof fn lemma_max_index_attained(rows: Seq<RowView>, kind: Seq<char>, digest: Seq<char>)
    ensures
        max_index(rows, kind, digest) == 0 || exists|i: int|
            0 <= i < rows.len() && in_namespace(#[trigger] rows[i], kind, digest)
                && rows[i].reference.ref_index == max_index(rows, kind, digest),
    decreases rows.len(),
{
    if rows.len() > 0 {
        lemma_max_index_attained(rows.drop_last(), kind, digest);
        let m = max_index(rows.drop_last(), kind, digest);
        if max_index(rows, kind, digest) == m && m != 0 {
            let i = choose|i: int|
                0 <= i < rows.drop_last().len() && in_namespace(#[trigger] rows.drop_last()[i], kind, digest)
                    && rows.drop_last()[i].reference.ref_index == m;
            assert(rows[i] == rows.drop_last()[i]);
        } else if max_index(rows, kind, digest) != m {
            assert(in_namespace(rows[rows.len() - 1], kind, digest));
        }
    }
}

/// In a well-formed ledger a namespace holds at most one row per index.
pub proof fn lemma_index_unique(rows: Seq<RowView>, kind: Seq<char>, digest: Seq<char>, idx: u64, i: int)
    requires
        ledger_wf(rows),
        index_at(rows, kind, digest, idx, i),
    ensures
        has_index(rows, kind, digest, idx),
        index_reference(rows, kind, digest, idx) == rows[i].reference,
{
    let k = choose|k: int| #[trigger] index_at(rows, kind, digest, idx, k);
    if k < i {
        assert(same_namespace(rows[k], rows[i]));
    } else if k > i {
        assert(same_namespace(rows[i], rows[k]));
    }
}

/// In a well-formed ledger a namespace holds at most one row per tuple.
pub proof fn lemma_tuple_unique(rows: Seq<RowView>, kind: Seq<char>, digest: Seq<char>, t: AttemptTuple, i: int)
    requires
        ledger_wf(rows),
        tuple_at(rows, kind, digest, t, i),
    ensures
        has_tuple(rows, kind, digest, t),
        tuple_reference(rows, kind, digest, t) == rows[i].reference,
{
    let k = choose|k: int| #[trigger] tuple_at(rows, kind, digest, t, k);
    if k < i {
        assert(same_namespace(rows[k], rows[i]));
    } else if k > i {
        assert(same_namespace(rows[i], rows[k]));
    }
}

/// The row that an issue returns, and where it stands afterwards.
proof fn lemma_issued_row(
    rows: Seq<RowView>,
    kind: Seq<char>,
    digest: Seq<char>,
    t: AttemptTuple,
    created_at_unix_ms: i64,
) -> (i: int)
    requires
        ledger_wf(rows),
        spec_get_or_create(rows, kind, digest, t, created_at_unix_ms).1 is Ok,
    ensures
        0 <= i < spec_get_or_create(rows, kind, digest, t, created_at_unix_ms).0.len(),
        tuple_at(spec_get_or_create(rows, kind, digest, t, created_at_unix_ms).0, kind, digest, t, i),
        spec_get_or_create(rows, kind, digest, t, created_at_unix_ms).0[i].reference
            == spec_get_or_create(rows, kind, digest, t, created_at_unix_ms).1->Ok_0,
        ledger_wf(spec_get_or_create(rows, kind, digest, t, created_at_unix_ms).0),
{
    lemma_issue_preserves_wf(rows, kind, digest, t, created_at_unix_ms);
    if has_tuple(rows, kind, digest, t) {
        let k = choose|k: int| #[trigger] tuple_at(rows, kind, digest, t, k);
        k
    } else {
        let new_rows = spec_get_or_create(rows, kind, digest, t, created_at_unix_ms).0;
        assert(new_rows[rows.len() as int].reference.tuple == t);
        rows.len() as int
    }
}

/// A read gives back what an issue wrote: after a reference is issued (or
/// reissued), looking up its index in the same namespace returns it.
pub proof fn lemma_lookup_after_issue(
    rows: Seq<RowView>,
    kind: Seq<char>,
    digest: Seq<char>,
    t: AttemptTuple,
    created_at_unix_ms: i64,
)
    requires
        ledger_wf(rows),
        spec_get_or_create(rows, kind, digest, t, created_at_unix_ms).1 is Ok,
    ensures
        ({
            let (after, issued) = spec_get_or_create(rows, kind, digest, t, created_at_unix_ms);
            spec_lookup(after, kind, digest, issued->Ok_0.ref_index) == Ok::<Option<ReferenceView>, StoreErrorView>(Some(issued->Ok_0))
        }),
{
    let (after, issued) = spec_get_or_create(rows, kind, digest, t, created_at_unix_ms);
    let i = lemma_issued_row(rows, kind, digest, t, created_at_unix_ms);
    let r = issued->Ok_0;
    assert(index_at(after, kind, digest, r.ref_index, i));
    lemma_index_unique(after, kind, digest, r.ref_index, i);
}

/// Reissuing a tuple is idempotent: it returns the same reference and adds no row.
pub proof fn lemma_reissue_is_idempotent(
    rows: Seq<RowView>,
    kind: Seq<char>,
    digest: Seq<char>,
    t: AttemptTuple,
    created_at_unix_ms: i64,
    later_unix_ms: i64,
)
    requires
        ledger_wf(rows),
        spec_get_or_create(rows, kind, digest, t, created_at_unix_ms).1 is Ok,
    ensures
        ({
            let (after, issued) = spec_get_or_create(rows, kind, digest, t, created_at_unix_ms);
            spec_get_or_create(after, kind, digest, t, later_unix_ms) == (after, issued)
        }),
{
    let (after, issued) = spec_get_or_create(rows, kind, digest, t, created_at_unix_ms);
    let i = lemma_issued_row(rows, kind, digest, t, created_at_unix_ms);
    lemma_tuple_unique(after, kind, digest, t, i);
}

/// A refused request changes nothing.
pub proof fn lemma_refusal_changes_nothing(
    rows: Seq<RowView>,
    kind: Seq<char>,
    digest: Seq<char>,
    t: AttemptTuple,
    created_at_unix_ms: i64,
)
    requires
        spec_get_or_create(rows, kind, digest, t, created_at_unix_ms).1 is Err,
    ensures
        spec_get_or_create(rows, kind, digest, t, created_at_unix_ms).0 == rows,
{
}

/// An issued index never changes what it names: every lookup that found a
/// reference before an issue finds the same reference after it, in every namespace.
pub proof fn lemma_issue_never_retargets(
    rows: Seq<RowView>,
    kind: Seq<char>,
    digest: Seq<char>,
    t: AttemptTuple,
    created_at_unix_ms: i64,
    other_kind: Seq<char>,
    other_digest: Seq<char>,
    idx: u64,
)
    requires
        ledger_wf(rows),
        spec_lookup(rows, other_kind, other_digest, idx) is Ok,
        spec_lookup(rows, other_kind, other_digest, idx)->Ok_0 is Some,
    ensures
        spec_lookup(
            spec_get_or_create(rows, kind, digest, t, created_at_unix_ms).0,
            other_kind,
            other_digest,
            idx,
        ) == spec_lookup(rows, other_kind, other_digest, idx),
{
    let after = spec_get_or_create(rows, kind, digest, t, created_at_unix_ms).0;
    lemma_issue_preserves_wf(rows, kind, digest, t, created_at_unix_ms);
    let i = choose|i: int| #[trigger] index_at(rows, other_kind, other_digest, idx, i);
    lemma_index_unique(rows, other_kind, other_digest, idx, i);
    assert(after[i] == rows[i]);
    assert(index_at(after, other_kind, other_digest, idx, i));
    lemma_index_unique(after, other_kind, other_digest, idx, i);
}

/// Issuing in one namespace is invisible in every other namespace.
pub proof fn lemma_issue_isolated_to_namespace(
    rows: Seq<RowView>,
    kind: Seq<char>,
    digest: Seq<char>,
    t: AttemptTuple,
    created_at_unix_ms: i64,
    other_kind: Seq<char>,
    other_digest: Seq<char>,
    idx: u64,
)
    requires
        ledger_wf(rows),
        other_kind != kind || other_digest != digest,
    ensures
        spec_lookup(
            spec_get_or_create(rows, kind, digest, t, created_at_unix_ms).0,
            other_kind,
            other_digest,
            idx,
        ) == spec_lookup(rows, other_kind, other_digest, idx),
{
    let after = spec_get_or_create(rows, kind, digest, t, created_at_unix_ms).0;
    if after != rows {
        assert forall|i: int| index_at(after, other_kind, other_digest, idx, i)
            <==> index_at(rows, other_kind, other_digest, idx, i) by {
            if 0 <= i < rows.len() {
                assert(after[i] == rows[i]);
            }
        }
        lemma_issue_preserves_wf(rows, kind, digest, t, created_at_unix_ms);
        if has_index(rows, other_kind, other_digest, idx) {
            let i = choose|i: int| #[trigger] index_at(rows, other_kind, other_digest, idx, i);
            assert(index_at(after, other_kind, other_digest, idx, i));
            lemma_index_unique(rows, other_kind, other_digest, idx, i);
            lemma_index_unique(after, other_kind, other_digest, idx, i);
        } else {
            assert(!has_index(after, other_kind, other_digest, idx));
        }
    }
}

/// Within one namespace, two issued indexes are equal exactly when they name the same tuple.
pub proof fn lemma_indexes_identify_tuples(
    rows: Seq<RowView>,
    kind: Seq<char>,
    digest: Seq<char>,
    first: u64,
    second: u64,
)
    requires
        ledger_wf(rows),
        has_index(rows, kind, digest, first),
        has_index(rows, kind, digest, second),
    ensures
        first == second <==> same_tuple(
            index_reference(rows, kind, digest, first).tuple,
            index_reference(rows, kind, digest, second).tuple,
        ),
{
    let i = choose|i: int| #[trigger] index_at(rows, kind, digest, first, i);
    let j = choose|j: int| #[trigger] index_at(rows, kind, digest, second, j);
    if i < j {
        assert(same_namespace(rows[i], rows[j]));
    } else if j < i {
        assert(same_namespace(rows[j], rows[i]));
    }
}

/// The first reference issued in a namespace has index 1, and each new
/// reference takes the index after the largest one issued there.
pub proof fn lemma_new_reference_index(
    rows: Seq<RowView>,
    kind: Seq<char>,
    digest: Seq<char>,
    t: AttemptTuple,
    created_at_unix_ms: i64,
)
    requires
        ledger_wf(rows),
        spec_get_or_create(rows, kind, digest, t, created_at_unix_ms).1 is Ok,
        !has_tuple(rows, kind, digest, t),
    ensures
        spec_get_or_create(rows, kind, digest, t, created_at_unix_ms).1->Ok_0.ref_index
            == max_index(rows, kind, digest) + 1,
        (forall|i: int| 0 <= i < rows.len() ==> !in_namespace(#[trigger] rows[i], kind, digest))
            ==> spec_get_or_create(rows, kind, digest, t, created_at_unix_ms).1->Ok_0.ref_index == 1,
{
    lemma_max_index_empty(rows, kind, digest);
}

/// A namespace with no rows has largest index 0.
proof fn lemma_max_index_empty(rows: Seq<RowView>, kind: Seq<char>, digest: Seq<char>)
    ensures
        (forall|i: int| 0 <= i < rows.len() ==> !in_namespace(#[trigger] rows[i], kind, digest))
            ==> max_index(rows, kind, digest) == 0,
    decreases rows.len(),
{
    if rows.len() > 0 {
        lemma_max_index_empty(rows.drop_last(), kind, digest);
        if forall|i: int| 0 <= i < rows.len() ==> !in_namespace(#[trigger] rows[i], kind, digest) {
            assert forall|i: int| 0 <= i < rows.drop_last().len() implies !in_namespace(
                #[trigger] rows.drop_last()[i],
                kind,
                digest,
            ) by {
                assert(rows.drop_last()[i] == rows[i]);
            }
            assert(!in_namespace(rows[rows.len() - 1], kind, digest));
        }
    }
}

/// One request to issue a reference: the principal, the tuple and the time.
#[verifier::ext_equal]
pub struct IssueRequest {
    pub kind: Seq<char>,
    pub digest: Seq<char>,
    pub tuple: AttemptTuple,
    pub created_at_unix_ms: i64,
}

/// The ledger after serving `requests` in order, starting from `rows`.
pub open spec fn issue_all(rows: Seq<RowView>, requests: Seq<IssueRequest>) -> Seq<RowView>
    decreases requests.len(),
{
    if requests.len() == 0 {
        rows
    } else {
        let q = requests.last();
        spec_get_or_create(
            issue_all(rows, requests.drop_last()),
            q.kind,
            q.digest,
            q.tuple,
            q.created_at_unix_ms,
        ).0
    }
}

/// What the `j`-th request of `requests` was answered.
pub open spec fn issue_answer(rows: Seq<RowView>, requests: Seq<IssueRequest>, j: int) -> Result<
    ReferenceView,
    StoreErrorView,
> {
    let q = requests[j];
    spec_get_or_create(
        issue_all(rows, requests.take(j)),
        q.kind,
        q.digest,
        q.tuple,
        q.created_at_unix_ms,
    ).1
}

/// Serving requests keeps the invariant and only appends rows.
proof fn lemma_issue_all_extends(rows: Seq<RowView>, requests: Seq<IssueRequest>, j: nat)
    requires
        ledger_wf(rows),
        j <= requests.len(),
    ensures
        ledger_wf(issue_all(rows, requests)),
        ledger_wf(issue_all(rows, requests.take(j as int))),
        issue_all(rows, requests.take(j as int)).len() <= issue_all(rows, requests).len(),
        forall|i: int|
            0 <= i < issue_all(rows, requests.take(j as int)).len() ==> #[trigger] issue_all(
                rows,
                requests,
            )[i] == issue_all(rows, requests.take(j as int))[i],
    decreases requests.len(),
{
    if requests.len() == 0 {
        assert(requests.take(j as int) =~= requests);
    } else if j == requests.len() {
        assert(requests.take(j as int) =~= requests);
        lemma_issue_all_extends(rows, requests.drop_last(), 0);
        let q = requests.last();
        lemma_issue_preserves_wf(
            issue_all(rows, requests.drop_last()),
            q.kind,
            q.digest,
            q.tuple,
            q.created_at_unix_ms,
        );
    } else {
        lemma_issue_all_extends(rows, requests.drop_last(), j);
        assert(requests.drop_last().take(j as int) =~= requests.take(j as int));
        let q = requests.last();
        lemma_issue_preserves_wf(
            issue_all(rows, requests.drop_last()),
            q.kind,
            q.digest,
            q.tuple,
            q.created_at_unix_ms,
        );
    }
}

/// Across any history of issues: every reference that was issued (or
/// reissued) is still what a lookup of its index returns, and reissuing its
/// tuple still returns it without adding a row.
pub proof fn lemma_history_keeps_references(rows: Seq<RowView>, requests: Seq<IssueRequest>, j: int, later_unix_ms: i64)
    requires
        ledger_wf(rows),
        0 <= j < requests.len(),
        issue_answer(rows, requests, j) is Ok,
    ensures
        ({
            let after = issue_all(rows, requests);
            let q = requests[j];
            let r = issue_answer(rows, requests, j)->Ok_0;
            &&& spec_lookup(after, q.kind, q.digest, r.ref_index) == Ok::<
                Option<ReferenceView>,
                StoreErrorView,
            >(Some(r))
            &&& spec_get_or_create(after, q.kind, q.digest, q.tuple, later_unix_ms) == (
                after,
                Ok::<ReferenceView, StoreErrorView>(r),
            )
        }),
{
    let q = requests[j];
    let before = issue_all(rows, requests.take(j));
    let mid = issue_all(rows, requests.take(j + 1));
    let after = issue_all(rows, requests);
    assert(requests.take(j + 1).drop_last() =~= requests.take(j));
    assert(requests.take(j + 1).last() == q);
    lemma_issue_all_extends(rows, requests, j as nat);
    lemma_issue_all_extends(rows, requests, (j + 1) as nat);
    let r = issue_answer(rows, requests, j)->Ok_0;
    let i = lemma_issued_row(before, q.kind, q.digest, q.tuple, q.created_at_unix_ms);
    assert(mid[i] == after[i]);
    assert(tuple_at(after, q.kind, q.digest, q.tuple, i));
    lemma_tuple_unique(after, q.kind, q.digest, q.tuple, i);
    assert(index_at(after, q.kind, q.digest, r.ref_index, i));
    lemma_index_unique(after, q.kind, q.digest, r.ref_index, i);
}

/// Refuses a malformed principal, identifier, fence or controller generation.
pub fn validate_reference_tuple(
    principal: &CommunicationPrincipal,
    task_id: &str,
    attempt_id: &str,
    assignee_agent_id: &str,
    attempt_fence: &str,
    attempt_controller_generation: i64,
) -> (r: Result<(), CommunicationStoreError>)
    ensures
        check_view(r) == spec_validate_reference_tuple(
            principal.kind@,
            principal.digest@,
            tuple(
                task_id@,
                attempt_id@,
                assignee_agent_id@,
                attempt_fence@,
                attempt_controller_generation,
            ),
        ),
{
    validate_communication_principal(principal)?;
    validate_id(task_id, AGENT_TASK_ID_PREFIX, "invalid_agent_task_id")?;
    validate_id(attempt_id, AGENT_TASK_ATTEMPT_ID_PREFIX, "invalid_agent_task_attempt_id")?;
    validate_id(assignee_agent_id, DURABLE_AGENT_ID_PREFIX, "invalid_agent_id")?;
    validate_proof(attempt_fence, AGENT_TASK_ATTEMPT_FENCE_PREFIX, "invalid_agent_task_attempt_fence")?;
    if attempt_controller_generation < 1 {
        return Err(
            CommunicationStoreError::new(
                "invalid_agent_task_attempt_controller_generation",
                "attempt_controller_generation must be at least 1",
            ),
        );
    }
    Ok(())
}

/// The refusal of an index that the store cannot have issued.
pub fn invalid_reference_index() -> (e: CommunicationStoreError)
    ensures
        e@ == invalid_reference(),
{
    CommunicationStoreError::new(
        "invalid_agent_task_attempt_ref",
        "attempt_ref is not a server-issued selector",
    )
}


impl AgentTaskAttemptReferenceRecord {
    fn duplicate(&self) -> (c: Self)
        ensures
            c@ == self@,
    {
        AgentTaskAttemptReferenceRecord {
            ref_index: self.ref_index,
            task_id: self.task_id.clone(),
            attempt_id: self.attempt_id.clone(),
            assignee_agent_id: self.assignee_agent_id.clone(),
            attempt_fence: self.attempt_fence.clone(),
            attempt_controller_generation: self.attempt_controller_generation,
        }
    }
}

fn same_row_namespace(a: &AttemptReferenceRow, b: &AttemptReferenceRow) -> (r: bool)
    ensures
        r == same_namespace(a@, b@),
{
    text_equals(a.principal_kind.as_str(), b.principal_kind.as_str()) && text_equals(
        a.principal_digest.as_str(),
        b.principal_digest.as_str(),
    )
}

fn same_record_tuple(a: &AgentTaskAttemptReferenceRecord, b: &AgentTaskAttemptReferenceRecord) -> (r: bool)
    ensures
        r == same_tuple(a@.tuple, b@.tuple),
{
    text_equals(a.task_id.as_str(), b.task_id.as_str()) && text_equals(
        a.attempt_id.as_str(),
        b.attempt_id.as_str(),
    ) && text_equals(a.assignee_agent_id.as_str(), b.assignee_agent_id.as_str()) && text_equals(
        a.attempt_fence.as_str(),
        b.attempt_fence.as_str(),
    ) && a.attempt_controller_generation == b.attempt_controller_generation
}

/// The ledger of issued Attempt references, across all principals.
pub struct Database {
    rows: Vec<AttemptReferenceRow>,
}

impl View for Database {
    type V = Seq<RowView>;

    closed spec fn view(&self) -> Seq<RowView> {
        self.rows@.map_values(|r: AttemptReferenceRow| r@)
    }
}

impl Database {
    /// Rebuilds a ledger from stored rows, in issue order; `None` when the
    /// rows break the ledger's invariant.
    pub fn restore(rows: Vec<AttemptReferenceRow>) -> (r: Option<Database>)
        ensures
            r is Some <==> ledger_wf(rows@.map_values(|x: AttemptReferenceRow| x@)),
            r matches Some(db) ==> db@ == rows@.map_values(|x: AttemptReferenceRow| x@),
    {
        let ghost v = rows@.map_values(|x: AttemptReferenceRow| x@);
        let n = rows.len();
        let mut j: usize = 0;
        while j < n
            invariant
                n == rows@.len(),
                v == rows@.map_values(|x: AttemptReferenceRow| x@),
                j <= n,
                forall|a: int| 0 <= a < j ==> 1 <= #[trigger] v[a].reference.ref_index <= i64::MAX,
                forall|a: int, b: int|
                    0 <= a < b < j && same_namespace(#[trigger] v[a], #[trigger] v[b]) ==> {
                        &&& v[a].reference.ref_index != v[b].reference.ref_index
                        &&& !same_tuple(v[a].reference.tuple, v[b].reference.tuple)
                    },
            decreases n - j,
        {
            let later = &rows[j];
            assert(later@ == v[j as int]);
            if later.record.ref_index == 0 || later.record.ref_index > i64::MAX as u64 {
                assert(!(1 <= v[j as int].reference.ref_index <= i64::MAX));
                assert(!ledger_wf(v));
                return None;
            }
            let mut i: usize = 0;
            while i < j
                invariant
                    n == rows@.len(),
                    v == rows@.map_values(|x: AttemptReferenceRow| x@),
                    i <= j < n,
                    later@ == v[j as int],
                    forall|a: int|
                        0 <= a < i && same_namespace(#[trigger] v[a], v[j as int]) ==> {
                            &&& v[a].reference.ref_index != v[j as int].reference.ref_index
                            &&& !same_tuple(v[a].reference.tuple, v[j as int].reference.tuple)
                        },
                decreases j - i,
            {
                let earlier = &rows[i];
                assert(earlier@ == v[i as int]);
                if same_row_namespace(earlier, later) && (earlier.record.ref_index
                    == later.record.ref_index || same_record_tuple(&earlier.record, &later.record)) {
                    assert(same_namespace(v[i as int], v[j as int]));
                    return None;
                }
                i = i + 1;
            }
            j = j + 1;
        }
        Some(Database { rows })
    }

    /// An empty ledger.
    pub fn new() -> (db: Self)
        ensures
            db@ == Seq::<RowView>::empty(),
            ledger_wf(db@),
    {
        let db = Database { rows: Vec::new() };
        assert(db@ =~= Seq::<RowView>::empty());
        db
    }

    /// The number of issued references, across all principals.
    pub fn len(&self) -> (n: usize)
        ensures
            n == self@.len(),
    {
        self.rows.len()
    }

    /// The stored rows, in the order in which they were issued.
    pub fn rows(&self) -> (r: &Vec<AttemptReferenceRow>)
        ensures
            r@.map_values(|x: AttemptReferenceRow| x@) == self@,
    {
        &self.rows
    }

    /// Return the stable index for one exact fenced Attempt tuple. A different
    /// fence, assignee, or controller generation is a different row. This
    /// mapping grants no ownership or execution authority.
    pub fn get_or_create_agent_task_attempt_reference(
        &mut self,
        principal: &CommunicationPrincipal,
        task_id: &str,
        attempt_id: &str,
        assignee_agent_id: &str,
        attempt_fence: &str,
        attempt_controller_generation: i64,
        created_at_unix_ms: i64,
    ) -> (r: Result<AgentTaskAttemptReferenceRecord, CommunicationStoreError>)
        requires
            ledger_wf(old(self)@),
        ensures
            ledger_wf(final(self)@),
            final(self)@ == spec_get_or_create(
                old(self)@,
                principal.kind@,
                principal.digest@,
                tuple(task_id@, attempt_id@, assignee_agent_id@, attempt_fence@, attempt_controller_generation),
                created_at_unix_ms,
            ).0,
            reference_result_view(r) == spec_get_or_create(
                old(self)@,
                principal.kind@,
                principal.digest@,
                tuple(task_id@, attempt_id@, assignee_agent_id@, attempt_fence@, attempt_controller_generation),
                created_at_unix_ms,
            ).1,
    {
        let ghost rows = self@;
        let ghost kind = principal.kind@;
        let ghost digest = principal.digest@;
        let ghost t = tuple(task_id@, attempt_id@, assignee_agent_id@, attempt_fence@, attempt_controller_generation);
        match validate_reference_tuple(
            principal,
            task_id,
            attempt_id,
            assignee_agent_id,
            attempt_fence,
            attempt_controller_generation,
        ) {
            Err(e) => {
                return Err(e);
            },
            Ok(()) => {},
        }
        let n = self.rows.len();
        let mut max: u64 = 0;
        let mut i: usize = 0;
        while i < n
            invariant
                rows == self@,
                kind == principal.kind@,
                digest == principal.digest@,
                ledger_wf(rows),
                n == rows.len(),
                i <= n,
                t == tuple(task_id@, attempt_id@, assignee_agent_id@, attempt_fence@, attempt_controller_generation),
                spec_validate_reference_tuple(kind, digest, t) is Ok,
                max == max_index(rows.take(i as int), kind, digest),
                forall|j: int| 0 <= j < i ==> !#[trigger] tuple_at(rows, kind, digest, t, j),
            decreases n - i,
        {
            let row = &self.rows[i];
            assert(row@ == rows[i as int]);
            assert(rows.take(i as int + 1).drop_last() =~= rows.take(i as int));
            let same_principal = text_equals(row.principal_kind.as_str(), principal.kind.as_str())
                && text_equals(row.principal_digest.as_str(), principal.digest.as_str());
            if same_principal && text_equals(row.record.task_id.as_str(), task_id)
                && text_equals(row.record.attempt_id.as_str(), attempt_id)
                && text_equals(row.record.assignee_agent_id.as_str(), assignee_agent_id)
                && text_equals(row.record.attempt_fence.as_str(), attempt_fence)
                && row.record.attempt_controller_generation == attempt_controller_generation {
                assert(tuple_at(rows, kind, digest, t, i as int));
                proof {
                    lemma_tuple_unique(rows, kind, digest, t, i as int);
                }
                return Ok(row.record.duplicate());
            }
            if same_principal && row.record.ref_index > max {
                max = row.record.ref_index;
            }
            i = i + 1;
        }
        assert(rows.take(n as int) =~= rows);
        assert(!has_tuple(rows, kind, digest, t));
        if max >= i64::MAX as u64 {
            return Err(
                CommunicationStoreError::new(
                    "communication_store_unavailable",
                    "Durable communication store is unavailable",
                ),
            );
        }
        let record = AgentTaskAttemptReferenceRecord {
            ref_index: max + 1,
            task_id: task_id.to_owned(),
            attempt_id: attempt_id.to_owned(),
            assignee_agent_id: assignee_agent_id.to_owned(),
            attempt_fence: attempt_fence.to_owned(),
            attempt_controller_generation,
        };
        let row = AttemptReferenceRow {
            principal_kind: principal.kind.clone(),
            principal_digest: principal.digest.clone(),
            record: record.duplicate(),
            created_at_unix_ms,
        };
        self.rows.push(row);
        proof {
            assert(self@ =~= rows.push(row@));
            lemma_issue_preserves_wf(rows, kind, digest, t, created_at_unix_ms);
        }
        Ok(record)
    }

    /// The reference that `principal` holds under `ref_index`, if any.
    pub fn lookup_agent_task_attempt_reference(
        &self,
        principal: &CommunicationPrincipal,
        ref_index: u64,
    ) -> (r: Result<Option<AgentTaskAttemptReferenceRecord>, CommunicationStoreError>)
        requires
            ledger_wf(self@),
        ensures
            lookup_result_view(r) == spec_lookup(self@, principal.kind@, principal.digest@, ref_index),
    {
        let ghost rows = self@;
        let ghost kind = principal.kind@;
        let ghost digest = principal.digest@;
        match validate_communication_principal(principal) {
            Err(e) => {
                return Err(e);
            },
            Ok(()) => {},
        }
        if ref_index == 0 || ref_index > i64::MAX as u64 {
            return Err(invalid_reference_index());
        }
        let n = self.rows.len();
        let mut i: usize = 0;
        while i < n
            invariant
                rows == self@,
                kind == principal.kind@,
                digest == principal.digest@,
                ledger_wf(rows),
                n == rows.len(),
                i <= n,
                spec_validate_principal(kind, digest) is Ok,
                1 <= ref_index <= i64::MAX,
                forall|j: int| 0 <= j < i ==> !#[trigger] index_at(rows, kind, digest, ref_index, j),
            decreases n - i,
        {
            let row = &self.rows[i];
            assert(row@ == rows[i as int]);
            if text_equals(row.principal_kind.as_str(), principal.kind.as_str()) && text_equals(
                row.principal_digest.as_str(),
                principal.digest.as_str(),
            ) && row.record.ref_index == ref_index {
                assert(index_at(rows, kind, digest, ref_index, i as int));
                proof {
                    lemma_index_unique(rows, kind, digest, ref_index, i as int);
                }
                return Ok(Some(row.record.duplicate()));
            }
            i = i + 1;
        }
        Ok(None)
    }
}

} // verus!

use webcodex::attempt_reference::{AgentTaskAttemptReferenceRecord, AttemptReferenceRow, Database};
use webcodex::communication::{
    CommunicationPrincipal, AGENT_TASK_ATTEMPT_FENCE_PREFIX, AGENT_TASK_ATTEMPT_ID_PREFIX,
    AGENT_TASK_ID_PREFIX, COMMUNICATION_PRINCIPAL_DIGEST_PREFIX, DURABLE_AGENT_ID_PREFIX,
};

const T0: i64 = 1_000_000;

fn principal_with_kind(kind: &str, hex: char) -> CommunicationPrincipal {
    CommunicationPrincipal {
        kind: kind.to_string(),
        digest: format!(
            "{COMMUNICATION_PRINCIPAL_DIGEST_PREFIX}{}",
            hex.to_string().repeat(64)
        ),
    }
}

fn principal(hex: char) -> CommunicationPrincipal {
    principal_with_kind("user", hex)
}

fn id(prefix: &str, hex: char) -> String {
    format!("{prefix}{}", hex.to_string().repeat(32))
}

fn fence(hex: char) -> String {
    format!("{AGENT_TASK_ATTEMPT_FENCE_PREFIX}{}", hex.to_string().repeat(64))
}

struct Attempt {
    task_id: String,
    attempt_id: String,
    assignee: String,
    fence: String,
    generation: i64,
}

fn attempt(task: char, attempt: char, agent: char, proof: char) -> Attempt {
    Attempt {
        task_id: id(AGENT_TASK_ID_PREFIX, task),
        attempt_id: id(AGENT_TASK_ATTEMPT_ID_PREFIX, attempt),
        assignee: id(DURABLE_AGENT_ID_PREFIX, agent),
        fence: fence(proof),
        generation: 1,
    }
}

fn issue(
    db: &mut Database,
    owner: &CommunicationPrincipal,
    a: &Attempt,
    generation: i64,
    at: i64,
) -> AgentTaskAttemptReferenceRecord {
    db.get_or_create_agent_task_attempt_reference(
        owner,
        &a.task_id,
        &a.attempt_id,
        &a.assignee,
        &a.fence,
        generation,
        at,
    )
    .unwrap()
}

fn created_at(db: &Database, owner: &CommunicationPrincipal, index: u64) -> i64 {
    db.rows()
        .iter()
        .find(|row| {
            row.principal_kind == owner.kind
                && row.principal_digest == owner.digest
                && row.record.ref_index == index
        })
        .unwrap()
        .created_at_unix_ms
}

#[test]
fn agent_task_attempt_references_pin_generation_and_do_not_retarget() {
    let alice = principal('a');
    let bob = principal('b');
    let mut db = Database::new();
    let started = attempt('1', '2', '3', '4');
    assert!(
        started.fence.starts_with("wc_agent_task_fence_"),
        "the selector must not replace the existing fence"
    );

    let first = issue(&mut db, &alice, &started, started.generation, T0);
    assert_eq!(first.ref_index, 1);
    assert_eq!(first.attempt_fence, started.fence);
    let replay = issue(&mut db, &alice, &started, 1, T0 + 50);
    assert_eq!(replay, first);
    assert_eq!(
        created_at(&db, &alice, 1),
        T0,
        "reissuing a tuple must not rewrite the row"
    );

    let next_generation = issue(&mut db, &alice, &started, 2, T0 + 10);
    assert_eq!(next_generation.ref_index, 2);
    assert_eq!(next_generation.attempt_controller_generation, 2);
    assert_eq!(
        db.lookup_agent_task_attempt_reference(&alice, 1)
            .unwrap()
            .unwrap(),
        first,
        "the old index stays pinned to generation 1"
    );

    let same_digest_other_kind = principal_with_kind("service", 'a');
    let other_kind_ref = issue(&mut db, &same_digest_other_kind, &started, 3, T0 + 15);
    assert_eq!(
        other_kind_ref.ref_index, 1,
        "principal kind participates in the selector namespace"
    );
    assert!(db
        .lookup_agent_task_attempt_reference(&same_digest_other_kind, 2)
        .unwrap()
        .is_none());

    let bob_same_tuple = issue(&mut db, &bob, &started, 1, T0 + 20);
    assert_eq!(bob_same_tuple.ref_index, 1);
    assert!(
        db.lookup_agent_task_attempt_reference(&bob, 2)
            .unwrap()
            .is_none(),
        "another principal must not see Alice's later index"
    );

    let reopened = Database::restore(db.rows().clone()).unwrap();
    let mut reopened = reopened;
    assert_eq!(
        reopened
            .lookup_agent_task_attempt_reference(&alice, 2)
            .unwrap()
            .unwrap(),
        next_generation
    );
    assert!(reopened
        .get_or_create_agent_task_attempt_reference(
            &alice,
            &started.task_id,
            &started.attempt_id,
            &started.assignee,
            &started.fence,
            0,
            T0,
        )
        .is_err());
    assert!(reopened
        .get_or_create_agent_task_attempt_reference(
            &alice,
            "task",
            &started.attempt_id,
            &started.assignee,
            &started.fence,
            1,
            T0,
        )
        .is_err());
    assert!(reopened
        .get_or_create_agent_task_attempt_reference(
            &alice,
            &started.task_id,
            &started.attempt_id,
            &started.assignee,
            "wc_agent_task_fence_short",
            1,
            T0,
        )
        .is_err());
    assert!(reopened
        .lookup_agent_task_attempt_reference(&alice, 0)
        .is_err());
}

#[test]
fn agent_task_attempt_references_stay_pinned_across_expiry_takeover_and_controller_replacement() {
    let mut db = Database::new();
    let owner = principal('c');
    let started = attempt('5', '6', '7', '8');
    let pinned = issue(&mut db, &owner, &started, started.generation, T0);
    let replay_pin = issue(&mut db, &owner, &started, started.generation, T0 + 1);
    assert_eq!(replay_pin, pinned);

    let replaced_generation = started.generation + 1;
    let successor_generation = issue(&mut db, &owner, &started, replaced_generation, T0 + 4);
    assert_ne!(successor_generation.ref_index, pinned.ref_index);
    assert_eq!(
        db.lookup_agent_task_attempt_reference(&owner, pinned.ref_index)
            .unwrap()
            .unwrap(),
        pinned
    );
    assert_eq!(
        db.lookup_agent_task_attempt_reference(&owner, pinned.ref_index)
            .unwrap()
            .unwrap()
            .attempt_controller_generation,
        started.generation
    );

    let expiring = attempt('9', 'a', '7', 'b');
    let expired_pin = issue(&mut db, &owner, &expiring, expiring.generation, T0);
    let taken_over = attempt('9', 'c', 'd', 'e');
    assert_ne!(taken_over.attempt_id, expiring.attempt_id);
    assert_ne!(taken_over.fence, expiring.fence);
    let taken_over_pin = issue(&mut db, &owner, &taken_over, taken_over.generation, T0 + 5);
    assert_ne!(taken_over_pin.ref_index, expired_pin.ref_index);
    assert_eq!(
        db.lookup_agent_task_attempt_reference(&owner, expired_pin.ref_index)
            .unwrap()
            .unwrap(),
        expired_pin
    );
}

#[test]
fn reference_indexes_count_up_per_namespace() {
    let mut db = Database::new();
    let owner = principal('d');
    let other = principal('e');
    let a = attempt('1', '1', '1', '1');
    let b = attempt('2', '2', '2', '2');
    let c = attempt('3', '3', '3', '3');
    assert_eq!(issue(&mut db, &owner, &a, 1, T0).ref_index, 1);
    assert_eq!(issue(&mut db, &other, &b, 1, T0).ref_index, 1);
    assert_eq!(issue(&mut db, &owner, &b, 1, T0).ref_index, 2);
    assert_eq!(issue(&mut db, &owner, &c, 1, T0).ref_index, 3);
    assert_eq!(issue(&mut db, &owner, &a, 1, T0 + 9).ref_index, 1);
    assert_eq!(db.len(), 4);
    assert!(db
        .lookup_agent_task_attempt_reference(&owner, 4)
        .unwrap()
        .is_none());
}

#[test]
fn refusals_name_the_first_malformed_field_and_change_nothing() {
    let mut db = Database::new();
    let owner = principal('f');
    let a = attempt('1', '2', '3', '4');
    let refuse = |db: &mut Database,
                  who: &CommunicationPrincipal,
                  task: &str,
                  attempt_id: &str,
                  assignee: &str,
                  proof: &str,
                  generation: i64| {
        db.get_or_create_agent_task_attempt_reference(
            who, task, attempt_id, assignee, proof, generation, T0,
        )
        .unwrap_err()
    };
    let bad_principal = CommunicationPrincipal {
        kind: "User".to_string(),
        digest: owner.digest.clone(),
    };
    let e = refuse(&mut db, &bad_principal, &a.task_id, &a.attempt_id, &a.assignee, &a.fence, 1);
    assert_eq!(e.code(), "invalid_communication_principal");
    let e = refuse(&mut db, &owner, &a.attempt_id, &a.attempt_id, &a.assignee, &a.fence, 1);
    assert_eq!(e.code(), "invalid_agent_task_id");
    let e = refuse(&mut db, &owner, &a.task_id, &a.task_id, &a.assignee, &a.fence, 1);
    assert_eq!(e.code(), "invalid_agent_task_attempt_id");
    let e = refuse(&mut db, &owner, &a.task_id, &a.attempt_id, "agent", &a.fence, 1);
    assert_eq!(e.code(), "invalid_agent_id");
    let e = refuse(&mut db, &owner, &a.task_id, &a.attempt_id, &a.assignee, &a.task_id, 1);
    assert_eq!(e.code(), "invalid_agent_task_attempt_fence");
    let e = refuse(&mut db, &owner, &a.task_id, &a.attempt_id, &a.assignee, &a.fence, -3);
    assert_eq!(e.code(), "invalid_agent_task_attempt_controller_generation");
    assert_eq!(e.message, "attempt_controller_generation must be at least 1");
    assert_eq!(db.len(), 0);
}

#[test]
fn lookup_refuses_indexes_the_store_cannot_issue() {
    let db = Database::new();
    let owner = principal('a');
    let e = db
        .lookup_agent_task_attempt_reference(&owner, u64::MAX)
        .unwrap_err();
    assert_eq!(e.code(), "invalid_agent_task_attempt_ref");
    assert_eq!(e.message, "attempt_ref is not a server-issued selector");
    assert!(db
        .lookup_agent_task_attempt_reference(&owner, i64::MAX as u64)
        .unwrap()
        .is_none());
    let bad = CommunicationPrincipal {
        kind: "user".to_string(),
        digest: "sha256:xyz".to_string(),
    };
    assert_eq!(
        db.lookup_agent_task_attempt_reference(&bad, 1)
            .unwrap_err()
            .code(),
        "invalid_communication_principal"
    );
}

#[test]
fn restore_refuses_rows_that_break_the_ledger() {
    let owner = principal('a');
    let a = attempt('1', '2', '3', '4');
    let row = |index: u64, generation: i64| AttemptReferenceRow {
        principal_kind: owner.kind.clone(),
        principal_digest: owner.digest.clone(),
        record: AgentTaskAttemptReferenceRecord {
            ref_index: index,
            task_id: a.task_id.clone(),
            attempt_id: a.attempt_id.clone(),
            assignee_agent_id: a.assignee.clone(),
            attempt_fence: a.fence.clone(),
            attempt_controller_generation: generation,
        },
        created_at_unix_ms: T0,
    };
    assert!(Database::restore(vec![row(1, 1), row(2, 2)]).is_some());
    assert!(Database::restore(vec![row(1, 1), row(1, 2)]).is_none());
    assert!(Database::restore(vec![row(1, 1), row(2, 1)]).is_none());
    assert!(Database::restore(vec![row(0, 1)]).is_none());
}

#[test]
fn references_stay_readable_and_reissuable_across_a_history() {
    let mut db = Database::new();
    let owners = [principal('a'), principal('b'), principal_with_kind("service", 'a')];
    let attempts = [attempt('1', '2', '3', '4'), attempt('5', '6', '7', '8')];
    let mut issued = Vec::new();
    for step in 0..12i64 {
        let owner = &owners[(step % 3) as usize];
        let a = &attempts[(step % 2) as usize];
        let generation = 1 + step % 4;
        let r = issue(&mut db, owner, a, generation, T0 + step);
        issued.push((owner.clone(), r));
    }
    let rows = db.len();
    for (owner, r) in &issued {
        assert_eq!(
            db.lookup_agent_task_attempt_reference(owner, r.ref_index)
                .unwrap()
                .unwrap(),
            *r
        );
        let again = db
            .get_or_create_agent_task_attempt_reference(
                owner,
                &r.task_id,
                &r.attempt_id,
                &r.assignee_agent_id,
                &r.attempt_fence,
                r.attempt_controller_generation,
                T0 + 99,
            )
            .unwrap();
        assert_eq!(again, *r);
    }
    assert_eq!(db.len(), rows);
}

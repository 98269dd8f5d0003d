use openab_core::clock::Timestamp;
use openab_core::terminal_delivery::{
    advanced_row, check_integrity, check_step, choose_existing, schema_action, storage_fault, stored_record, terminal_delivery_key,
    validate_against, validate_record, validate_rows, validate_safe_field, DeliveryRow, NewTerminalDeliveryRecord, SchemaAction,
    TerminalDeliveryError, TerminalDeliveryRecordV1, TerminalDeliveryRepository, TerminalDeliveryState, TerminalPayload,
    TransitionUpdate, TERMINAL_DELIVERY_PAYLOAD_CONFLICT,
};

fn repo() -> TerminalDeliveryRepository {
    TerminalDeliveryRepository::open("/data", 0, "ok", Vec::new(), Vec::new()).unwrap()
}

fn at(secs: i64) -> Timestamp {
    Timestamp::new(secs, 123_456_789).unwrap()
}

fn payload(text: &str) -> TerminalPayload {
    TerminalPayload::from_json(text).unwrap()
}

fn input() -> NewTerminalDeliveryRecord {
    NewTerminalDeliveryRecord {
        openab_inbound_turn_id: "turn-1".into(),
        platform: "discord".into(),
        channel_id: "channel-1".into(),
        thread_id: Some("thread-1".into()),
        acp_request_id: "request-1".into(),
        acp_session_id: "session-1".into(),
        runtime_run_id: "runtime-1".into(),
        workflow_run_id: Some("workflow-1".into()),
        conversation_id: "conversation-1".into(),
        response_sequence: 0,
        terminal_payload: payload(r#"{"content":"already safe"}"#),
    }
}

fn step(
    repo: &mut TerminalDeliveryRepository,
    record: &TerminalDeliveryRecordV1,
    state: TerminalDeliveryState,
) -> TerminalDeliveryRecordV1 {
    repo.transition(
        &record.terminal_delivery_key,
        record.state_revision,
        state,
        TransitionUpdate::default(),
        "TEST_TRANSITION",
        at(1_700_000_100),
    )
    .unwrap()
}

#[test]
fn creates_pending_and_replays_same_key() {
    let mut repo = repo();
    let first = repo.create_or_reuse(input(), at(1_700_000_000)).unwrap();
    let second = repo.create_or_reuse(input(), at(1_700_000_001)).unwrap();
    assert_eq!(first, second);
    assert_eq!(first.state, TerminalDeliveryState::PendingResult);
    assert_eq!(first.state_revision, 0);
}

#[test]
fn semantic_slot_same_payload_reuses_and_different_payload_conflicts() {
    let mut repo = repo();
    let first = repo.create_or_reuse(input(), at(1_700_000_000)).unwrap();
    let mut same = input();
    same.acp_request_id = "request-other".into();
    same.acp_session_id = "session-other".into();
    assert_eq!(
        repo.create_or_reuse(same, at(1_700_000_001))
            .unwrap()
            .terminal_delivery_key,
        first.terminal_delivery_key
    );
    let mut conflict = input();
    conflict.terminal_payload = payload(r#"{"content":"different"}"#);
    assert!(matches!(
        repo.create_or_reuse(conflict, at(1_700_000_002)),
        Err(TerminalDeliveryError::PayloadConflict {
            code: TERMINAL_DELIVERY_PAYLOAD_CONFLICT
        })
    ));
}

#[test]
fn every_legal_transition_and_terminal_immutability() {
    let mut repo = repo();
    let pending = repo.create_or_reuse(input(), at(1_700_000_000)).unwrap();
    let hold = step(&mut repo, &pending, TerminalDeliveryState::OperatorHold);
    let ready = step(&mut repo, &hold, TerminalDeliveryState::ReadyToDeliver);
    let delivering = step(&mut repo, &ready, TerminalDeliveryState::Delivering);
    let retry = step(&mut repo, &delivering, TerminalDeliveryState::RetryScheduled);
    let delivering = step(&mut repo, &retry, TerminalDeliveryState::Delivering);
    let ambiguous = step(&mut repo, &delivering, TerminalDeliveryState::Ambiguous);
    let delivered = step(&mut repo, &ambiguous, TerminalDeliveryState::Delivered);
    assert!(matches!(
        repo.transition(
            &delivered.terminal_delivery_key,
            delivered.state_revision,
            TerminalDeliveryState::OperatorHold,
            TransitionUpdate::default(),
            "TEST",
            at(1_700_000_200),
        ),
        Err(TerminalDeliveryError::ImmutableTerminalState(_))
    ));
    let pending = repo
        .create_or_reuse(
            NewTerminalDeliveryRecord {
                response_sequence: 1,
                ..input()
            },
            at(1_700_000_300),
        )
        .unwrap();
    let ready = step(&mut repo, &pending, TerminalDeliveryState::ReadyToDeliver);
    let delivering = step(&mut repo, &ready, TerminalDeliveryState::Delivering);
    let rejected = step(&mut repo, &delivering, TerminalDeliveryState::PermanentRejected);
    assert!(matches!(
        repo.transition(
            &rejected.terminal_delivery_key,
            rejected.state_revision,
            TerminalDeliveryState::ReadyToDeliver,
            TransitionUpdate::default(),
            "TEST",
            at(1_700_000_400),
        ),
        Err(TerminalDeliveryError::ImmutableTerminalState(_))
    ));
}

#[test]
fn illegal_transitions_and_ambiguous_retry_are_rejected() {
    let mut repo = repo();
    let record = repo.create_or_reuse(input(), at(1_700_000_000)).unwrap();
    assert!(matches!(
        repo.transition(
            &record.terminal_delivery_key,
            0,
            TerminalDeliveryState::Delivering,
            TransitionUpdate::default(),
            "TEST",
            at(1_700_000_001),
        ),
        Err(TerminalDeliveryError::IllegalTransition { .. })
    ));
    let ready = step(&mut repo, &record, TerminalDeliveryState::ReadyToDeliver);
    let delivering = step(&mut repo, &ready, TerminalDeliveryState::Delivering);
    let ambiguous = step(&mut repo, &delivering, TerminalDeliveryState::Ambiguous);
    assert!(matches!(
        repo.transition(
            &ambiguous.terminal_delivery_key,
            ambiguous.state_revision,
            TerminalDeliveryState::RetryScheduled,
            TransitionUpdate::default(),
            "TEST",
            at(1_700_000_002),
        ),
        Err(TerminalDeliveryError::IllegalTransition { .. })
    ));
}

#[test]
fn state_machine_accepts_only_the_approved_edges() {
    let states = [
        TerminalDeliveryState::PendingResult,
        TerminalDeliveryState::ReadyToDeliver,
        TerminalDeliveryState::Delivering,
        TerminalDeliveryState::RetryScheduled,
        TerminalDeliveryState::Ambiguous,
        TerminalDeliveryState::Delivered,
        TerminalDeliveryState::PermanentRejected,
        TerminalDeliveryState::OperatorHold,
    ];
    for from in states {
        for to in states {
            let approved = matches!(
                (from, to),
                (
                    TerminalDeliveryState::PendingResult,
                    TerminalDeliveryState::ReadyToDeliver | TerminalDeliveryState::OperatorHold
                ) | (
                    TerminalDeliveryState::ReadyToDeliver,
                    TerminalDeliveryState::Delivering | TerminalDeliveryState::OperatorHold
                ) | (
                    TerminalDeliveryState::Delivering,
                    TerminalDeliveryState::Delivered
                        | TerminalDeliveryState::RetryScheduled
                        | TerminalDeliveryState::PermanentRejected
                        | TerminalDeliveryState::Ambiguous
                ) | (
                    TerminalDeliveryState::RetryScheduled,
                    TerminalDeliveryState::Delivering | TerminalDeliveryState::OperatorHold
                ) | (
                    TerminalDeliveryState::Ambiguous,
                    TerminalDeliveryState::Delivered | TerminalDeliveryState::OperatorHold
                ) | (
                    TerminalDeliveryState::OperatorHold,
                    TerminalDeliveryState::ReadyToDeliver
                        | TerminalDeliveryState::Delivered
                        | TerminalDeliveryState::PermanentRejected
                )
            );
            assert_eq!(
                from.may_transition_to(to),
                approved,
                "{} -> {}",
                from.as_str(),
                to.as_str()
            );
        }
    }
}

#[test]
fn operator_hold_cas_attempts_and_message_id_are_enforced() {
    let mut repo = repo();
    let record = repo.create_or_reuse(input(), at(1_700_000_000)).unwrap();
    let hold = step(&mut repo, &record, TerminalDeliveryState::OperatorHold);
    assert!(matches!(
        repo.transition(
            &hold.terminal_delivery_key,
            0,
            TerminalDeliveryState::ReadyToDeliver,
            TransitionUpdate::default(),
            "TEST",
            at(1_700_000_001),
        ),
        Err(TerminalDeliveryError::RevisionConflict { .. })
    ));
    let mut update = TransitionUpdate {
        attempt_count: Some(2),
        discord_message_id: Some("message-1".into()),
        ..Default::default()
    };
    let ready = repo
        .transition(
            &hold.terminal_delivery_key,
            hold.state_revision,
            TerminalDeliveryState::ReadyToDeliver,
            update.clone(),
            "OPERATOR_RELEASE",
            at(1_700_000_002),
        )
        .unwrap();
    update.attempt_count = Some(1);
    assert!(matches!(
        repo.transition(
            &ready.terminal_delivery_key,
            ready.state_revision,
            TerminalDeliveryState::Delivering,
            update,
            "TEST",
            at(1_700_000_003),
        ),
        Err(TerminalDeliveryError::InvalidInput(_))
    ));
    let delivering = step(&mut repo, &ready, TerminalDeliveryState::Delivering);
    assert!(matches!(
        repo.transition(
            &delivering.terminal_delivery_key,
            delivering.state_revision,
            TerminalDeliveryState::Delivered,
            TransitionUpdate {
                discord_message_id: Some("message-2".into()),
                ..Default::default()
            },
            "TEST",
            at(1_700_000_004),
        ),
        Err(TerminalDeliveryError::DiscordMessageIdWriteOnce)
    ));
}

#[test]
fn partial_unique_message_id_and_event_audit_are_enforced() {
    let mut repo = repo();
    let first = repo.create_or_reuse(input(), at(1_700_000_000)).unwrap();
    let first = step(&mut repo, &first, TerminalDeliveryState::ReadyToDeliver);
    let first = repo
        .transition(
            &first.terminal_delivery_key,
            first.state_revision,
            TerminalDeliveryState::Delivering,
            TransitionUpdate {
                discord_message_id: Some("message-1".into()),
                ..Default::default()
            },
            "LEASED",
            at(1_700_000_001),
        )
        .unwrap();
    let second = repo
        .create_or_reuse(
            NewTerminalDeliveryRecord {
                response_sequence: 1,
                ..input()
            },
            at(1_700_000_002),
        )
        .unwrap();
    let second = step(&mut repo, &second, TerminalDeliveryState::ReadyToDeliver);
    assert!(matches!(
        repo.transition(
            &second.terminal_delivery_key,
            second.state_revision,
            TerminalDeliveryState::Delivering,
            TransitionUpdate {
                discord_message_id: Some("message-1".into()),
                ..Default::default()
            },
            "LEASED",
            at(1_700_000_003),
        ),
        Err(TerminalDeliveryError::Storage(_))
    ));
    let events = repo.events(&first.terminal_delivery_key).unwrap();
    assert_eq!(events.len(), 3);
    assert_eq!(events[0].previous_state, None);
    assert_eq!(events[0].new_state, TerminalDeliveryState::PendingResult);
}

#[test]
fn restart_digest_schema_and_corruption_fail_closed() {
    let mut repo = repo();
    let record = repo.create_or_reuse(input(), at(1_700_000_000)).unwrap();
    let path = repo.database_path().to_string();
    let rows: Vec<DeliveryRow> = repo.rows().clone();
    let log = repo.log().clone();
    assert_eq!(
        TerminalDeliveryRepository::open_path(path.clone(), 1, "ok", rows.clone(), log.clone())
            .unwrap()
            .get(&record.terminal_delivery_key)
            .unwrap()
            .unwrap(),
        record
    );
    let mut tampered = rows.clone();
    tampered[0].terminal_payload_digest = "bad".into();
    assert!(matches!(
        TerminalDeliveryRepository::open_path(path.clone(), 1, "ok", tampered, log.clone()),
        Err(TerminalDeliveryError::MalformedRecord(_))
    ));
    assert!(matches!(
        TerminalDeliveryRepository::open_path(path.clone(), 99, "ok", rows.clone(), log.clone()),
        Err(TerminalDeliveryError::SchemaVersion { found: 99 })
    ));
    assert!(matches!(
        TerminalDeliveryRepository::open_path(path, 1, "row 1 missing from index", rows, log),
        Err(TerminalDeliveryError::Corrupt(_))
    ));
}

#[test]
fn rejects_unsafe_audit_data() {
    let mut repo = repo();
    let record = repo.create_or_reuse(input(), at(1_700_000_000)).unwrap();
    assert!(matches!(
        repo.transition(
            &record.terminal_delivery_key,
            0,
            TerminalDeliveryState::ReadyToDeliver,
            TransitionUpdate {
                last_safe_error: Some(Some("Bearer secret".into())),
                ..Default::default()
            },
            "TEST",
            at(1_700_000_001),
        ),
        Err(TerminalDeliveryError::UnsafeAuditField(_))
    ));
    assert!(matches!(
        repo.transition(
            &record.terminal_delivery_key,
            0,
            TerminalDeliveryState::ReadyToDeliver,
            TransitionUpdate::default(),
            "RAW runtime exception",
            at(1_700_000_001),
        ),
        Err(TerminalDeliveryError::UnsafeAuditField(_))
    ));
}

#[test]
fn the_key_is_the_digest_of_the_identity_in_json() {
    let key = terminal_delivery_key(&input()).unwrap();
    let material = concat_material();
    let digest = <sha2::Sha256 as sha2::Digest>::digest(material.as_bytes());
    assert_eq!(key, format!("{:x}", digest));
    assert_eq!(key.len(), 64);
}

fn concat_material() -> String {
    [
        r#"{"record_version":1,"openab_inbound_turn_id":"turn-1","platform":"discord","#,
        r#""channel_id":"channel-1","thread_id_normalized":"thread-1","acp_request_id":"request-1","#,
        r#""runtime_run_id":"runtime-1","workflow_run_id_normalized":"workflow-1","#,
        r#""conversation_id":"conversation-1","response_sequence":0,"#,
        r#""terminal_payload":{"content":"already safe"}}"#,
    ]
    .concat()
}

#[test]
fn identifiers_are_escaped_in_the_key_material() {
    let mut odd = input();
    odd.platform = "dis\"co\\rd\n\u{1}".into();
    let material =
        concat_material().replace(r#""discord""#, "\"dis\\\"co\\\\rd\\n\\u0001\"");
    let digest = <sha2::Sha256 as sha2::Digest>::digest(material.as_bytes());
    assert_eq!(terminal_delivery_key(&odd).unwrap(), format!("{:x}", digest));
}

#[test]
fn the_session_is_no_part_of_the_key() {
    let mut other = input();
    other.acp_session_id = "session-2".into();
    assert_eq!(
        terminal_delivery_key(&input()).unwrap(),
        terminal_delivery_key(&other).unwrap()
    );
    other.acp_request_id = "request-2".into();
    assert_ne!(
        terminal_delivery_key(&input()).unwrap(),
        terminal_delivery_key(&other).unwrap()
    );
}

#[test]
fn blank_identifiers_are_refused() {
    let mut required = input();
    required.channel_id = " \t".into();
    assert_eq!(
        terminal_delivery_key(&required),
        Err(TerminalDeliveryError::InvalidInput("required identifier"))
    );
    let mut optional = input();
    optional.thread_id = Some("".into());
    assert_eq!(
        terminal_delivery_key(&optional),
        Err(TerminalDeliveryError::InvalidInput("optional identifier"))
    );
    let mut absent = input();
    absent.thread_id = None;
    assert!(terminal_delivery_key(&absent).is_ok());
}

#[test]
fn payloads_are_canonical_json() {
    assert_eq!(
        payload("{ \"b\": 1,\n \"a\": [true, null] }").as_json(),
        r#"{"a":[true,null],"b":1}"#
    );
    assert!(TerminalPayload::from_json("{ not json").is_none());
}

#[test]
fn times_are_stored_to_the_microsecond() {
    let mut repo = repo();
    let record = repo.create_or_reuse(input(), at(1_700_000_000)).unwrap();
    assert_eq!(repo.rows()[0].created_at, "2023-11-14T22:13:20.123456Z");
    assert_eq!(record.created_at, Timestamp::new(1_700_000_000, 123_456_000).unwrap());
    assert_eq!(record.updated_at, record.created_at);
}

#[test]
fn times_outside_the_calendar_are_refused() {
    assert!(Timestamp::new(8_210_266_876_799, 0).is_some());
    assert!(Timestamp::new(8_210_266_876_800, 0).is_none());
    assert!(Timestamp::new(-8_334_601_228_800, 0).is_some());
    assert!(Timestamp::new(-8_334_601_228_801, 0).is_none());
    assert!(Timestamp::new(59, 1_500_000_000).is_some());
    assert!(Timestamp::new(58, 1_500_000_000).is_none());
    assert!(Timestamp::new(-1, 1_500_000_000).is_some());
    assert!(Timestamp::new(-2, 1_500_000_000).is_none());
    assert!(Timestamp::new(59, 2_000_000_000).is_none());
}

#[test]
fn a_time_that_does_not_read_back_creates_nothing() {
    let mut repo = repo();
    let far = Timestamp::new(8_210_266_876_799, 0).unwrap();
    let outcome = repo.create_or_reuse(input(), far);
    assert_eq!(
        outcome,
        Err(TerminalDeliveryError::Storage(
            "malformed terminal delivery record: timestamp".into()
        ))
    );
    assert!(repo.rows().is_empty());
    assert!(repo.log().is_empty());
}

#[test]
fn a_delivered_step_stamps_the_time_and_moves_the_revision() {
    let mut repo = repo();
    let record = repo.create_or_reuse(input(), at(1_700_000_000)).unwrap();
    let ready = step(&mut repo, &record, TerminalDeliveryState::ReadyToDeliver);
    assert_eq!(ready.state_revision, 1);
    assert_eq!(ready.delivered_at, None);
    let sending = repo
        .transition(
            &record.terminal_delivery_key,
            1,
            TerminalDeliveryState::Delivering,
            TransitionUpdate {
                attempt_count: Some(1),
                delivery_lease_token: Some(Some("lease".into())),
                delivery_started_at: Some(Some(at(1_700_000_150))),
                last_failure_classification: Some(Some("NONE".into())),
                ..Default::default()
            },
            "LEASED",
            at(1_700_000_150),
        )
        .unwrap();
    assert_eq!(sending.attempt_count, 1);
    assert_eq!(sending.delivery_lease_token.as_deref(), Some("lease"));
    let done = repo
        .transition(
            &record.terminal_delivery_key,
            2,
            TerminalDeliveryState::Delivered,
            TransitionUpdate {
                delivery_lease_token: Some(None),
                discord_message_id: Some("m".into()),
                ..Default::default()
            },
            "SENT",
            at(1_700_000_200),
        )
        .unwrap();
    assert_eq!(done.state_revision, 3);
    assert_eq!(done.delivered_at, Some(Timestamp::new(1_700_000_200, 123_456_000).unwrap()));
    assert_eq!(done.delivery_lease_token, None);
    assert_eq!(done.last_failure_classification.as_deref(), Some("NONE"));
    assert_eq!(done.discord_message_id.as_deref(), Some("m"));
    let events = repo.events(&record.terminal_delivery_key).unwrap();
    let revisions: Vec<u64> = events.iter().map(|e| e.state_revision).collect();
    assert_eq!(revisions, vec![0, 1, 2, 3]);
    assert_eq!(events[3].safe_reason_code, "SENT");
    assert_eq!(events[3].previous_state, Some(TerminalDeliveryState::Delivering));
}

#[test]
fn a_step_of_an_unknown_delivery_is_refused() {
    let mut repo = repo();
    assert_eq!(
        repo.transition(
            "nothing",
            0,
            TerminalDeliveryState::ReadyToDeliver,
            TransitionUpdate::default(),
            "TEST",
            at(0),
        ),
        Err(TerminalDeliveryError::InvalidInput("terminal_delivery_key"))
    );
    assert_eq!(repo.get("nothing"), Ok(None));
    assert_eq!(repo.events("nothing"), Ok(Vec::new()));
}

#[test]
fn a_row_that_does_not_parse_is_reported_as_storage() {
    let mut repo = repo();
    let record = repo.create_or_reuse(input(), at(1_700_000_000)).unwrap();
    let cases: [(&str, fn(&mut DeliveryRow)); 6] = [
        ("integer", |r| r.response_sequence = "x".into()),
        ("terminal_payload", |r| r.terminal_payload = "{".into()),
        ("unknown state", |r| r.state = "LOST".into()),
        ("integer", |r| r.attempt_count = "18446744073709551616".into()),
        ("timestamp", |r| r.created_at = "yesterday".into()),
        ("integer", |r| r.state_revision = "".into()),
    ];
    for (detail, spoil) in cases {
        let mut row = repo.rows()[0].clone();
        spoil(&mut row);
        let spoiled =
            TerminalDeliveryRepository::with_rows("db".into(), vec![row], repo.log().clone());
        assert_eq!(
            spoiled.get(&record.terminal_delivery_key),
            Err(TerminalDeliveryError::Storage(format!(
                "malformed terminal delivery record: {detail}"
            )))
        );
    }
}

#[test]
fn a_revision_in_another_notation_is_not_updated() {
    let mut repo = repo();
    let record = repo.create_or_reuse(input(), at(1_700_000_000)).unwrap();
    let mut row = repo.rows()[0].clone();
    row.state_revision = "+0".into();
    let mut odd = TerminalDeliveryRepository::with_rows("db".into(), vec![row.clone()], Vec::new());
    let after = odd
        .transition(
            &record.terminal_delivery_key,
            0,
            TerminalDeliveryState::ReadyToDeliver,
            TransitionUpdate::default(),
            "TEST",
            at(1_700_000_001),
        )
        .unwrap();
    assert_eq!(after.state, TerminalDeliveryState::PendingResult);
    assert_eq!(odd.rows()[0], row);
    assert_eq!(odd.log().len(), 1);
}

#[test]
fn a_database_lies_in_its_data_directory() {
    assert_eq!(repo().database_path(), "/data/openab/terminal-deliveries.db");
    let here = TerminalDeliveryRepository::open("", 1, "ok", Vec::new(), Vec::new()).unwrap();
    assert_eq!(here.database_path(), "openab/terminal-deliveries.db");
    let slash = TerminalDeliveryRepository::open("/d/", 1, "ok", Vec::new(), Vec::new()).unwrap();
    assert_eq!(slash.database_path(), "/d/openab/terminal-deliveries.db");
}

#[test]
fn errors_read_as_they_should() {
    let cases = [
        (TerminalDeliveryError::Storage("x".into()), "terminal delivery storage failure: x"),
        (
            TerminalDeliveryError::SchemaVersion { found: -7 },
            "unsupported terminal delivery schema version -7",
        ),
        (TerminalDeliveryError::Corrupt("c".into()), "terminal delivery database corruption: c"),
        (
            TerminalDeliveryError::MalformedRecord("m".into()),
            "malformed terminal delivery record: m",
        ),
        (TerminalDeliveryError::InvalidInput("i"), "invalid terminal delivery input: i"),
        (
            TerminalDeliveryError::PayloadConflict {
                code: TERMINAL_DELIVERY_PAYLOAD_CONFLICT,
            },
            "terminal delivery payload conflict: TERMINAL_DELIVERY_PAYLOAD_CONFLICT",
        ),
        (
            TerminalDeliveryError::IllegalTransition {
                from: TerminalDeliveryState::PendingResult,
                to: TerminalDeliveryState::Delivered,
            },
            "illegal terminal delivery transition: PENDING_RESULT -> DELIVERED",
        ),
        (
            TerminalDeliveryError::ImmutableTerminalState(TerminalDeliveryState::PermanentRejected),
            "terminal delivery state is immutable: PERMANENT_REJECTED",
        ),
        (
            TerminalDeliveryError::RevisionConflict {
                expected: 3,
                actual: 18446744073709551615,
            },
            "terminal delivery revision conflict: expected 3, actual 18446744073709551615",
        ),
        (
            TerminalDeliveryError::DiscordMessageIdWriteOnce,
            "discord_message_id is write-once",
        ),
        (
            TerminalDeliveryError::UnsafeAuditField("f"),
            "unsafe terminal delivery audit field: f",
        ),
    ];
    for (error, text) in cases {
        assert_eq!(error.message(), text);
    }
}

#[test]
fn existing_delivery_is_chosen_by_key_before_slot() {
    let mut repo = repo();
    let first = repo.create_or_reuse(input(), at(1_700_000_000)).unwrap();
    let mut other = input();
    other.response_sequence = 1;
    other.terminal_payload = payload(r#"{"content":"other"}"#);
    let second = repo.create_or_reuse(other, at(1_700_000_000)).unwrap();
    let digest = first.terminal_payload_digest.clone();

    assert_eq!(choose_existing(None, None, &digest), Ok(None));
    assert_eq!(
        choose_existing(Some(first.clone()), Some(second.clone()), &digest),
        Ok(Some(first.clone()))
    );
    assert_eq!(
        choose_existing(Some(second.clone()), None, &digest),
        Ok(Some(second.clone()))
    );
    assert_eq!(
        choose_existing(None, Some(first.clone()), &digest),
        Ok(Some(first))
    );
    assert!(matches!(
        choose_existing(None, Some(second), &digest),
        Err(TerminalDeliveryError::PayloadConflict {
            code: TERMINAL_DELIVERY_PAYLOAD_CONFLICT
        })
    ));
}

#[test]
fn steps_are_refused_in_order() {
    let mut repo = repo();
    let record = repo.create_or_reuse(input(), at(1_700_000_000)).unwrap();
    let none = TransitionUpdate::default();
    let ready = TerminalDeliveryState::ReadyToDeliver;
    assert_eq!(check_step(&record, 0, ready, &none), Ok(()));
    assert!(matches!(
        check_step(&record, 3, ready, &none),
        Err(TerminalDeliveryError::RevisionConflict { expected: 3, actual: 0 })
    ));
    assert!(matches!(
        check_step(&record, 0, TerminalDeliveryState::Delivered, &none),
        Err(TerminalDeliveryError::IllegalTransition { .. })
    ));

    let mut tried = record.clone();
    tried.attempt_count = 2;
    let fewer = TransitionUpdate { attempt_count: Some(1), ..TransitionUpdate::default() };
    assert!(matches!(
        check_step(&tried, 0, ready, &fewer),
        Err(TerminalDeliveryError::InvalidInput("attempt_count must be monotonic"))
    ));

    let mut sent = record.clone();
    sent.discord_message_id = Some("1".into());
    let again = TransitionUpdate {
        discord_message_id: Some("1".into()),
        ..TransitionUpdate::default()
    };
    assert!(matches!(
        check_step(&sent, 0, ready, &again),
        Err(TerminalDeliveryError::DiscordMessageIdWriteOnce)
    ));

    let mut worn = record.clone();
    worn.state_revision = u64::MAX;
    assert!(matches!(
        check_step(&worn, u64::MAX, ready, &none),
        Err(TerminalDeliveryError::InvalidInput("state_revision overflow"))
    ));

    let mut done = record;
    done.state = TerminalDeliveryState::Delivered;
    assert!(matches!(
        check_step(&done, 9, TerminalDeliveryState::Delivered, &none),
        Err(TerminalDeliveryError::ImmutableTerminalState(_))
    ));
}

#[test]
fn records_are_held_against_their_content() {
    let mut repo = repo();
    let record = repo.create_or_reuse(input(), at(1_700_000_000)).unwrap();
    let key = record.terminal_delivery_key.clone();
    let digest = record.terminal_payload_digest.clone();
    assert_eq!(validate_record(&record), Ok(()));
    assert_eq!(validate_against(&record, &key, &digest), Ok(()));
    assert!(matches!(
        validate_against(&record, "k", "d"),
        Err(TerminalDeliveryError::MalformedRecord(m)) if m == "terminal_delivery_key mismatch"
    ));
    assert!(matches!(
        validate_against(&record, &key, "d"),
        Err(TerminalDeliveryError::MalformedRecord(m)) if m == "terminal_payload_digest mismatch"
    ));
    let mut unsafe_text = record.clone();
    unsafe_text.last_safe_error = Some("a\nb".into());
    assert_eq!(
        validate_record(&unsafe_text),
        Err(TerminalDeliveryError::UnsafeAuditField("persisted safe field"))
    );
    assert_eq!(
        validate_safe_field("a\nb", "last_safe_error"),
        Err(TerminalDeliveryError::UnsafeAuditField("last_safe_error"))
    );
    assert_eq!(validate_safe_field("GATEWAY_TIMEOUT", "last_safe_error"), Ok(()));
    let mut moved = record;
    moved.channel_id = "elsewhere".into();
    assert!(matches!(
        validate_record(&moved),
        Err(TerminalDeliveryError::MalformedRecord(m)) if m == "terminal_delivery_key mismatch"
    ));
}

#[test]
fn a_step_rewrites_one_row() {
    let mut repo = repo();
    let record = repo.create_or_reuse(input(), at(1_700_000_000)).unwrap();
    let row = repo.rows()[0].clone();
    assert_eq!(validate_rows(&vec![row.clone()]), Ok(()));
    let update = TransitionUpdate {
        attempt_count: Some(1),
        discord_message_id: Some("42".into()),
        ..TransitionUpdate::default()
    };
    let next = advanced_row(
        &row,
        &record,
        TerminalDeliveryState::ReadyToDeliver,
        &update,
        at(1_700_000_005),
    );
    assert_eq!(next.state_revision, "1");
    assert_eq!(next.attempt_count, "1");
    assert_eq!(next.updated_at, "2023-11-14T22:13:25.123456Z");
    let read = stored_record(&next).unwrap();
    assert_eq!(read.state, TerminalDeliveryState::ReadyToDeliver);
    assert_eq!(read.discord_message_id.as_deref(), Some("42"));
    assert_eq!(read.created_at, record.created_at);
    assert_eq!(read.terminal_payload_digest, record.terminal_payload_digest);
}

#[test]
fn schema_versions_are_acted_on() {
    assert!(matches!(schema_action(0), Ok(SchemaAction::Create)));
    assert!(matches!(schema_action(1), Ok(SchemaAction::Keep)));
    assert!(matches!(
        schema_action(7),
        Err(TerminalDeliveryError::SchemaVersion { found: 7 })
    ));
}

#[test]
fn a_response_is_found_again_after_steps() {
    let mut repo = repo();
    let first = repo.create_or_reuse(input(), at(1_700_000_000)).unwrap();
    let ready = step(&mut repo, &first, TerminalDeliveryState::ReadyToDeliver);
    let delivering = step(&mut repo, &ready, TerminalDeliveryState::Delivering);
    let key = &first.terminal_delivery_key;
    let events = repo.events(key).unwrap();

    let mut again = input();
    again.acp_request_id = "request-other".into();
    again.acp_session_id = "session-other".into();
    again.conversation_id = "conversation-other".into();
    let found = repo.create_or_reuse(again.clone(), at(1_700_000_900)).unwrap();
    assert_eq!(found, delivering);
    assert_eq!(Some(found.clone()), repo.get(key).unwrap());
    assert_eq!(found.acp_request_id, "request-1");
    assert_eq!(found.acp_session_id, "session-1");
    assert_eq!(repo.rows().len(), 1);
    assert_eq!(repo.events(key).unwrap(), events);

    again.terminal_payload = payload(r#"{"content":"different"}"#);
    assert!(matches!(
        repo.create_or_reuse(again, at(1_700_000_901)),
        Err(TerminalDeliveryError::PayloadConflict { .. })
    ));
}

#[test]
fn events_tell_the_history() {
    let mut repo = repo();
    let first = repo.create_or_reuse(input(), at(1_700_000_000)).unwrap();
    let key = first.terminal_delivery_key.clone();
    let created = repo.events(&key).unwrap();
    let ready = step(&mut repo, &first, TerminalDeliveryState::ReadyToDeliver);
    assert!(repo
        .transition(
            &key,
            0,
            TerminalDeliveryState::Delivering,
            TransitionUpdate::default(),
            "LATE",
            at(1_700_000_101),
        )
        .is_err());
    let last = step(&mut repo, &ready, TerminalDeliveryState::Delivering);
    let events = repo.events(&key).unwrap();
    assert_eq!(events.len() as u64, last.state_revision + 1);
    assert_eq!(events[..1], created[..]);
    assert_eq!(events[0].previous_state, None);
    assert_eq!(events[0].safe_reason_code, "CREATED");
    for k in 1..events.len() {
        assert_eq!(events[k].previous_state, Some(events[k - 1].new_state));
        assert!(events[k - 1].new_state.may_transition_to(events[k].new_state));
        assert_eq!(events[k].state_revision, k as u64);
    }
    assert_eq!(events[events.len() - 1].new_state, last.state);
    assert_eq!(repo.events("unknown").unwrap(), Vec::new());
}

#[test]
fn keys_are_hexadecimal_digests() {
    let key = terminal_delivery_key(&input()).unwrap();
    assert_eq!(key.len(), 64);
    assert!(key.chars().all(|c| c.is_ascii_digit() || ('a'..='f').contains(&c)));
    let mut other = input();
    other.acp_session_id = "session-other".into();
    assert_eq!(terminal_delivery_key(&other).unwrap(), key);
    other.acp_session_id = " ".into();
    assert!(matches!(
        terminal_delivery_key(&other),
        Err(TerminalDeliveryError::InvalidInput(_))
    ));
}

#[test]
fn database_failures_are_told_apart() {
    assert_eq!(check_integrity("ok"), Ok(()));
    assert_eq!(
        check_integrity("row 3 missing"),
        Err(TerminalDeliveryError::Corrupt("row 3 missing".into()))
    );
    assert_eq!(
        storage_fault(true, "malformed".into()),
        TerminalDeliveryError::Corrupt("malformed".into())
    );
    assert_eq!(
        storage_fault(false, "locked".into()),
        TerminalDeliveryError::Storage("locked".into())
    );
}

#[test]
fn payloads_stay_readable() {
    let deep = format!("{}0{}", "[".repeat(127), "]".repeat(127));
    for text in [
        "1.7976931348623157e308",
        "-0",
        "5e-324",
        "123456789012345678901234567890",
        r#"{"b":[1,2.5,null],"a":"\u0000\""}"#,
        deep.as_str(),
    ] {
        let first = payload(text);
        assert!(TerminalPayload::from_json(first.as_json()).is_some(), "{text}");
        let mut repo = repo();
        let mut new = input();
        new.terminal_payload = first;
        assert!(repo.create_or_reuse(new, at(1_700_000_000)).is_ok(), "{text}");
    }
}

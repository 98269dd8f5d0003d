use openab_core::admission::NativeWorkflowMetadata;
use openab_core::role_completion_block::{
    check_aap_native_claim_against_metadata, parse_role_completion_block, RoleCompletionClaim,
    RoleCompletionParse,
};

fn sample_metadata() -> NativeWorkflowMetadata {
    NativeWorkflowMetadata {
        dispatch_id: "oad-test".into(),
        conversation_key: "ck-test".into(),
        workflow_run_id: "wf-test".into(),
        task_id: "task-test".into(),
        role: "VERIFIER".into(),
        agent: "ArthurCodex".into(),
        lease_id: "lease-test".into(),
        lease_generation: 1,
        expected_revision: 1,
        language: Some("zh-TW".into()),
        project_id: Some("proj-test".into()),
        project_root: Some("/home/arthur/openab/source".into()),
    }
}

#[test]
fn parse_well_formed_verifier_pass_block() {
    let text = "<role_completion>\nrole: VERIFIER\nresult: PASS\nworkflow_id: wf-test\nproject_id: proj-test\nproject_root: /home/arthur/openab/source\n</role_completion>";
    match parse_role_completion_block(text) {
        RoleCompletionParse::Claim(c) => {
            assert_eq!(c.role, "VERIFIER");
            assert_eq!(c.result, "PASS");
            assert_eq!(c.workflow_id, "wf-test");
        }
        other => panic!("expected Claim, got {other:?}"),
    }
}

#[test]
fn parse_well_formed_fenced_block() {
    let text = "Here is my verdict.\n\n```text\n<role_completion>\nrole: VERIFIER\nresult: PASS\nworkflow_id: wf-test\nproject_id: proj-test\nproject_root: /home/arthur/openab/source\n</role_completion>\n```\n";
    match parse_role_completion_block(text) {
        RoleCompletionParse::Claim(c) => {
            assert_eq!(c.role, "VERIFIER");
            assert_eq!(c.result, "PASS");
        }
        other => panic!("expected Claim, got {other:?}"),
    }
}

#[test]
fn plain_text_ok_01_is_not_a_claim() {
    assert_eq!(
        parse_role_completion_block("OK-01 review complete"),
        RoleCompletionParse::NoClaim
    );
}

#[test]
fn plain_text_ok_02_is_not_a_claim() {
    assert_eq!(
        parse_role_completion_block("OK-02 task done"),
        RoleCompletionParse::NoClaim
    );
}

#[test]
fn plain_text_verifier_pass_is_not_a_claim() {
    assert_eq!(
        parse_role_completion_block("VERIFIER_PASS review complete"),
        RoleCompletionParse::NoClaim
    );
}

#[test]
fn plain_text_final_reviewer_pass_is_not_a_claim() {
    assert_eq!(
        parse_role_completion_block("FINAL_REVIEWER_PASS look good"),
        RoleCompletionParse::NoClaim
    );
}

#[test]
fn plain_text_handoff_is_not_a_claim() {
    assert_eq!(
        parse_role_completion_block("HANDOFF COMPLETE — review done"),
        RoleCompletionParse::NoClaim
    );
}

#[test]
fn at_mention_is_not_a_claim() {
    assert_eq!(
        parse_role_completion_block("Please @ArthurGemini review this"),
        RoleCompletionParse::NoClaim
    );
}

#[test]
fn missing_required_role_field_is_malformed() {
    let text = "<role_completion>\nresult: PASS\nworkflow_id: wf-test\nproject_id: proj-test\nproject_root: /tmp\n</role_completion>";
    match parse_role_completion_block(text) {
        RoleCompletionParse::Malformed { reason } => {
            assert!(reason.contains("role"), "reason={reason}");
        }
        other => panic!("expected Malformed, got {other:?}"),
    }
}

#[test]
fn missing_required_result_field_is_malformed() {
    let text = "<role_completion>\nrole: VERIFIER\nworkflow_id: wf-test\nproject_id: proj-test\nproject_root: /tmp\n</role_completion>";
    match parse_role_completion_block(text) {
        RoleCompletionParse::Malformed { reason } => {
            assert!(reason.contains("result"), "reason={reason}");
        }
        other => panic!("expected Malformed, got {other:?}"),
    }
}

#[test]
fn empty_required_field_is_malformed() {
    let text = "<role_completion>\nrole: VERIFIER\nresult: \nworkflow_id: wf-test\nproject_id: proj-test\nproject_root: /tmp\n</role_completion>";
    match parse_role_completion_block(text) {
        RoleCompletionParse::Malformed { reason } => {
            assert!(reason.contains("empty"), "reason={reason}");
        }
        other => panic!("expected Malformed, got {other:?}"),
    }
}

#[test]
fn forbidden_field_fails_closed() {
    let text = "<role_completion>\nrole: VERIFIER\nresult: PASS\nworkflow_id: wf-test\nproject_id: proj-test\nproject_root: /tmp\ntransition_id: 0\n</role_completion>";
    match parse_role_completion_block(text) {
        RoleCompletionParse::Malformed { reason } => {
            assert!(
                reason.contains("transition_id") || reason.contains("forbidden"),
                "reason={reason}"
            );
        }
        other => panic!("expected Malformed, got {other:?}"),
    }
}

#[test]
fn unknown_field_fails_closed() {
    let text = "<role_completion>\nrole: VERIFIER\nresult: PASS\nworkflow_id: wf-test\nproject_id: proj-test\nproject_root: /tmp\nnovel_field: surprising\n</role_completion>";
    match parse_role_completion_block(text) {
        RoleCompletionParse::Malformed { reason } => {
            assert!(reason.contains("novel_field"), "reason={reason}");
        }
        other => panic!("expected Malformed, got {other:?}"),
    }
}

#[test]
fn ambiguous_multiple_blocks_rejected() {
    let text = "<role_completion>\nrole: VERIFIER\nresult: PASS\nworkflow_id: wf-test\nproject_id: proj-test\nproject_root: /tmp\n</role_completion>\nthen second\n<role_completion>\nrole: VERIFIER\nresult: FAIL\nworkflow_id: wf-test\nproject_id: proj-test\nproject_root: /tmp\n</role_completion>";
    assert_eq!(
        parse_role_completion_block(text),
        RoleCompletionParse::Ambiguous
    );
}

#[test]
fn inline_opening_marker_is_malformed() {
    let text = "prefix <role_completion>\nrole: VERIFIER\nresult: PASS\nworkflow_id: wf-test\nproject_id: proj-test\nproject_root: /tmp\n</role_completion>";
    assert!(matches!(
        parse_role_completion_block(text),
        RoleCompletionParse::Malformed { .. }
    ));
}

#[test]
fn inline_closing_marker_is_malformed() {
    let text = "<role_completion>\nrole: VERIFIER\nresult: PASS\nworkflow_id: wf-test\nproject_id: proj-test\nproject_root: /tmp\n</role_completion> suffix";
    assert!(matches!(
        parse_role_completion_block(text),
        RoleCompletionParse::Malformed { .. }
    ));
}

#[test]
fn marker_lines_allow_surrounding_whitespace() {
    let text = "  <role_completion>  \nrole: VERIFIER\nresult: PASS\nworkflow_id: wf-test\nproject_id: proj-test\nproject_root: /tmp\n  </role_completion>  ";
    assert!(matches!(
        parse_role_completion_block(text),
        RoleCompletionParse::Claim(_)
    ));
}

#[test]
fn unmatched_opening_marker_is_malformed() {
    let text = "<role_completion>\nrole: VERIFIER\nresult: PASS";
    assert!(matches!(
        parse_role_completion_block(text),
        RoleCompletionParse::Malformed { .. }
    ));
}

#[test]
fn unmatched_closing_marker_is_malformed() {
    let text = "narrative\n</role_completion>";
    assert!(matches!(
        parse_role_completion_block(text),
        RoleCompletionParse::Malformed { .. }
    ));
}

#[test]
fn valid_block_plus_trailing_unmatched_opening_is_malformed() {
    let text = "<role_completion>\nrole: VERIFIER\nresult: PASS\nworkflow_id: wf-test\nproject_id: proj-test\nproject_root: /tmp\n</role_completion>\n<role_completion>";
    assert!(matches!(
        parse_role_completion_block(text),
        RoleCompletionParse::Malformed { .. }
    ));
}

#[test]
fn valid_block_plus_trailing_unmatched_closing_is_malformed() {
    let text = "<role_completion>\nrole: VERIFIER\nresult: PASS\nworkflow_id: wf-test\nproject_id: proj-test\nproject_root: /tmp\n</role_completion>\n</role_completion>";
    assert!(matches!(
        parse_role_completion_block(text),
        RoleCompletionParse::Malformed { .. }
    ));
}

#[test]
fn two_openings_one_closing_is_malformed() {
    let text = "<role_completion>\n<role_completion>\nrole: VERIFIER\nresult: PASS\nworkflow_id: wf-test\nproject_id: proj-test\nproject_root: /tmp\n</role_completion>";
    assert!(matches!(
        parse_role_completion_block(text),
        RoleCompletionParse::Malformed { .. }
    ));
}

#[test]
fn one_opening_two_closings_is_malformed() {
    let text = "<role_completion>\nrole: VERIFIER\nresult: PASS\nworkflow_id: wf-test\nproject_id: proj-test\nproject_root: /tmp\n</role_completion>\n</role_completion>";
    assert!(matches!(
        parse_role_completion_block(text),
        RoleCompletionParse::Malformed { .. }
    ));
}

#[test]
fn invalid_role_value_is_malformed() {
    let text = "<role_completion>\nrole: NOT_A_ROLE\nresult: PASS\nworkflow_id: wf-test\nproject_id: proj-test\nproject_root: /tmp\n</role_completion>";
    match parse_role_completion_block(text) {
        RoleCompletionParse::Malformed { reason } => {
            assert!(
                reason.contains("role") || reason.contains("invalid"),
                "reason={reason}"
            );
        }
        other => panic!("expected Malformed, got {other:?}"),
    }
}

#[test]
fn invalid_result_value_is_malformed() {
    let text = "<role_completion>\nrole: VERIFIER\nresult: MAYBE\nworkflow_id: wf-test\nproject_id: proj-test\nproject_root: /tmp\n</role_completion>";
    match parse_role_completion_block(text) {
        RoleCompletionParse::Malformed { reason } => {
            assert!(
                reason.contains("result") || reason.contains("invalid"),
                "reason={reason}"
            );
        }
        other => panic!("expected Malformed, got {other:?}"),
    }
}

#[test]
fn keys_with_whitespace_or_invalid_format_fail_closed() {
    let text = "<role_completion>\nrole : VERIFIER\nresult: PASS\nworkflow_id: wf-test\nproject_id: proj-test\nproject_root: /tmp\n</role_completion>";
    match parse_role_completion_block(text) {
        RoleCompletionParse::Malformed { reason } => {
            assert!(
                reason.contains("whitespace") || reason.contains("role"),
                "reason={reason}"
            );
        }
        other => panic!("expected Malformed, got {other:?}"),
    }
}

#[test]
fn duplicate_key_is_malformed() {
    let text = "<role_completion>\nrole: VERIFIER\nrole: PRIMARY\nresult: PASS\nworkflow_id: wf-test\nproject_id: proj-test\nproject_root: /tmp\n</role_completion>";
    match parse_role_completion_block(text) {
        RoleCompletionParse::Malformed { reason } => {
            assert!(
                reason.contains("duplicate") || reason.contains("role"),
                "reason={reason}"
            );
        }
        other => panic!("expected Malformed, got {other:?}"),
    }
}

#[test]
fn empty_string_is_no_claim() {
    assert_eq!(
        parse_role_completion_block(""),
        RoleCompletionParse::NoClaim
    );
}

#[test]
fn whitespace_only_is_no_claim() {
    assert_eq!(
        parse_role_completion_block("   \n\n  "),
        RoleCompletionParse::NoClaim
    );
}

#[test]
fn check_against_metadata_happy_path_verifier_pass() {
    let metadata = sample_metadata();
    let claim = RoleCompletionClaim {
        role: "VERIFIER".into(),
        result: "PASS".into(),
        workflow_id: "wf-test".into(),
        project_id: "proj-test".into(),
        project_root: "/home/arthur/openab/source".into(),
    };
    assert!(check_aap_native_claim_against_metadata(&claim, &metadata).is_ok());
}

#[test]
fn check_against_metadata_wrong_role_rejects() {
    let mut metadata = sample_metadata();
    metadata.role = "PRIMARY".into();
    let claim = RoleCompletionClaim {
        role: "VERIFIER".into(),
        result: "PASS".into(),
        workflow_id: "wf-test".into(),
        project_id: "proj-test".into(),
        project_root: "/home/arthur/openab/source".into(),
    };
    let err = check_aap_native_claim_against_metadata(&claim, &metadata).unwrap_err();
    assert!(err.contains("role"), "err={err}");
}

#[test]
fn check_against_metadata_workflow_id_mismatch_rejects() {
    let metadata = sample_metadata();
    let claim = RoleCompletionClaim {
        role: "VERIFIER".into(),
        result: "PASS".into(),
        workflow_id: "wf-attacker".into(),
        project_id: "proj-test".into(),
        project_root: "/home/arthur/openab/source".into(),
    };
    let err = check_aap_native_claim_against_metadata(&claim, &metadata).unwrap_err();
    assert!(err.contains("workflow_id"), "err={err}");
}

#[test]
fn check_against_metadata_project_root_mismatch_rejects() {
    let metadata = sample_metadata();
    let claim = RoleCompletionClaim {
        role: "VERIFIER".into(),
        result: "PASS".into(),
        workflow_id: "wf-test".into(),
        project_id: "proj-test".into(),
        project_root: "/attacker/path".into(),
    };
    let err = check_aap_native_claim_against_metadata(&claim, &metadata).unwrap_err();
    assert!(err.contains("project_root"), "err={err}");
}

#[test]
fn check_against_metadata_final_reviewer_fail_rejected() {
    let mut metadata = sample_metadata();
    metadata.role = "FINAL_REVIEWER".into();
    let claim = RoleCompletionClaim {
        role: "FINAL_REVIEWER".into(),
        result: "FAIL".into(),
        workflow_id: "wf-test".into(),
        project_id: "proj-test".into(),
        project_root: "/home/arthur/openab/source".into(),
    };
    let err = check_aap_native_claim_against_metadata(&claim, &metadata).unwrap_err();
    assert!(
        err.contains("role-result") || err.contains("FINAL_REVIEWER"),
        "err={err}"
    );
}

#[test]
fn check_against_metadata_final_reviewer_pass_accepted() {
    let mut metadata = sample_metadata();
    metadata.role = "FINAL_REVIEWER".into();
    let claim = RoleCompletionClaim {
        role: "FINAL_REVIEWER".into(),
        result: "PASS".into(),
        workflow_id: "wf-test".into(),
        project_id: "proj-test".into(),
        project_root: "/home/arthur/openab/source".into(),
    };
    assert!(check_aap_native_claim_against_metadata(&claim, &metadata).is_ok());
}

#[test]
fn check_against_metadata_primary_complete_accepted() {
    let mut metadata = sample_metadata();
    metadata.role = "PRIMARY".into();
    let claim = RoleCompletionClaim {
        role: "PRIMARY".into(),
        result: "COMPLETE".into(),
        workflow_id: "wf-test".into(),
        project_id: "proj-test".into(),
        project_root: "/home/arthur/openab/source".into(),
    };
    assert!(check_aap_native_claim_against_metadata(&claim, &metadata).is_ok());
}

#[test]
fn check_against_metadata_primary_pass_rejected() {
    let mut metadata = sample_metadata();
    metadata.role = "PRIMARY".into();
    let claim = RoleCompletionClaim {
        role: "PRIMARY".into(),
        result: "PASS".into(),
        workflow_id: "wf-test".into(),
        project_id: "proj-test".into(),
        project_root: "/home/arthur/openab/source".into(),
    };
    assert!(check_aap_native_claim_against_metadata(&claim, &metadata).is_err());
}

#[test]
fn check_against_metadata_missing_or_blank_trusted_project_identity_rejects() {
    let claim = RoleCompletionClaim {
        role: "VERIFIER".into(),
        result: "PASS".into(),
        workflow_id: "wf-test".into(),
        project_id: "proj-test".into(),
        project_root: "/home/arthur/openab/source".into(),
    };

    let mut missing_project_id = sample_metadata();
    missing_project_id.project_id = None;
    let err = check_aap_native_claim_against_metadata(&claim, &missing_project_id).unwrap_err();
    assert!(err.contains("project_id"), "err={err}");

    let mut blank_project_id = sample_metadata();
    blank_project_id.project_id = Some("   ".into());
    let err = check_aap_native_claim_against_metadata(&claim, &blank_project_id).unwrap_err();
    assert!(err.contains("project_id"), "err={err}");

    let mut missing_project_root = sample_metadata();
    missing_project_root.project_root = None;
    let err =
        check_aap_native_claim_against_metadata(&claim, &missing_project_root).unwrap_err();
    assert!(err.contains("project_root"), "err={err}");

    let mut blank_project_root = sample_metadata();
    blank_project_root.project_root = Some("   ".into());
    let err = check_aap_native_claim_against_metadata(&claim, &blank_project_root).unwrap_err();
    assert!(err.contains("project_root"), "err={err}");
}

#[test]
fn check_against_metadata_project_id_mismatch_rejects() {
    let metadata = sample_metadata();
    let claim = RoleCompletionClaim {
        role: "VERIFIER".into(),
        result: "PASS".into(),
        workflow_id: "wf-test".into(),
        project_id: "attacker-project".into(),
        project_root: "/home/arthur/openab/source".into(),
    };

    let err = check_aap_native_claim_against_metadata(&claim, &metadata).unwrap_err();
    assert!(err.contains("project_id"), "err={err}");
}

#[test]
fn several_blocks_are_ambiguous_wherever_their_markers_stand() {
    for text in [
        "<role_completion></role_completion>\n<role_completion></role_completion>",
        "<role_completion></role_completion><role_completion></role_completion>",
        "a <role_completion>\nrole: X\n</role_completion> b\n<role_completion>\n</role_completion>",
        "<role_completion></role_completion><role_completion></role_completion></role_completion>",
    ] {
        assert_eq!(parse_role_completion_block(text), RoleCompletionParse::Ambiguous);
    }
}

use openab_core::autonomous_ingress::{
    assemble_user_objective, extract_canonical_title, resolve_current_human_prompt_authority,
};
use openab_core::autonomous_ingress::{
    project_error, project_response, AutonomousIngressError, AutonomousIngressResponse,
    AutonomousRouteDisposition,
};
use openab_core::autonomous_ingress::{
    encode_request, AutonomousIngressMetadata, AutonomousIngressRequest,
};
use openab_core::autonomous_ingress::{
    build_production_client, should_route_to_aap, HttpAutonomousIngressClient,
};
use openab_core::config::AutonomousIngressConfig;
use openab_core::dispatch::TextAttachment;

fn cfg_with_agents(agents: &[&str], universal: bool) -> AutonomousIngressConfig {
    AutonomousIngressConfig {
        aap_agents: agents.iter().map(|s| s.to_string()).collect(),
        aap_runtime_url: "http://127.0.0.1:8000".into(),
        aap_credential_env: "TEST_TOKEN_ENV".into(),
        project_id: "arthur-ai-platform".into(),
        request_timeout_seconds: 5,
        aap_universal_humans: universal,
    }
}

fn attachment(filename: &str, body: &str) -> TextAttachment {
    TextAttachment {
        filename: filename.into(),
        body: body.into(),
    }
}

#[test]
fn routing_requires_config() {
    assert!(!should_route_to_aap(None, "ArthurClaude", true));
}

#[test]
fn routing_requires_declared_agent() {
    let cfg = cfg_with_agents(&["ArthurCodex"], false);
    assert!(!should_route_to_aap(Some(&cfg), "ArthurClaude", true));
    assert!(should_route_to_aap(Some(&cfg), "ArthurCodex", true));
}

#[test]
fn routing_requires_tech_lead_when_universal_false() {
    let cfg = cfg_with_agents(&["ArthurClaude"], false);
    assert!(!should_route_to_aap(Some(&cfg), "ArthurClaude", false));
    assert!(should_route_to_aap(Some(&cfg), "ArthurClaude", true));
}

#[test]
fn routing_universal_humans_bypasses_tech_lead() {
    let cfg = cfg_with_agents(&["ArthurClaude"], true);
    assert!(should_route_to_aap(Some(&cfg), "ArthurClaude", false));
    assert!(should_route_to_aap(Some(&cfg), "ArthurClaude", true));
}

#[test]
fn disposition_accepted_carries_canonical_identifiers() {
    let resp = AutonomousIngressResponse {
        disposition: "ACCEPTED".into(),
        task_id: Some("t1".into()),
        workflow_run_id: Some("r1".into()),
        binding_id: Some("b1".into()),
        conversation_key: Some("k1".into()),
        error_code: None,
        detail: None,
        retryable: None,
    };
    let d = project_response(resp, "fallback");
    match d {
        AutonomousRouteDisposition::Accepted {
            task_id,
            workflow_run_id,
            binding_id,
            conversation_key,
        } => {
            assert_eq!(task_id, "t1");
            assert_eq!(workflow_run_id, "r1");
            assert_eq!(binding_id, "b1");
            assert_eq!(conversation_key, "k1");
        }
        _ => panic!("expected Accepted"),
    }
}

#[test]
fn disposition_rejected_carries_error_code() {
    let resp = AutonomousIngressResponse {
        disposition: "REJECTED".into(),
        task_id: None,
        workflow_run_id: None,
        binding_id: None,
        conversation_key: None,
        error_code: Some("AAP_AUTH_FAILURE".into()),
        detail: Some("bad token".into()),
        retryable: Some(false),
    };
    let d = project_response(resp, "fallback");
    match d {
        AutonomousRouteDisposition::Rejected {
            error_code,
            retryable,
            detail,
        } => {
            assert_eq!(error_code, "AAP_AUTH_FAILURE");
            assert!(!retryable);
            assert_eq!(detail.as_deref(), Some("bad token"));
        }
        _ => panic!("expected Rejected"),
    }
}

#[test]
fn disposition_unknown_string_fails_closed_as_rejected() {
    let resp = AutonomousIngressResponse {
        disposition: "WEIRD".into(),
        task_id: None,
        workflow_run_id: None,
        binding_id: None,
        conversation_key: None,
        error_code: None,
        detail: None,
        retryable: None,
    };
    let d = project_response(resp, "fallback");
    assert!(matches!(
        d,
        AutonomousRouteDisposition::Rejected { ref error_code, .. }
        if error_code.starts_with("AAP_UNKNOWN_DISPOSITION")
    ));
}

#[test]
fn transport_error_unreachable_is_retryable() {
    let e = AutonomousIngressError::Unreachable("dns".into());
    assert!(e.retryable());
    let d = project_error(e);
    match d {
        AutonomousRouteDisposition::Unavailable {
            error_code,
            retryable,
        } => {
            assert_eq!(error_code, "AAP_UNREACHABLE");
            assert!(retryable);
        }
        _ => panic!("expected Unavailable"),
    }
}

#[test]
fn transport_error_auth_missing_is_not_retryable() {
    let e = AutonomousIngressError::AuthMissing;
    assert!(!e.retryable());
    let d = project_error(e);
    match d {
        AutonomousRouteDisposition::Unavailable {
            error_code,
            retryable,
        } => {
            assert_eq!(error_code, "AAP_AUTH_MISSING");
            assert!(!retryable);
        }
        _ => panic!("expected Unavailable"),
    }
}

#[test]
fn http_5xx_is_retryable_4xx_is_not() {
    let err5 = AutonomousIngressError::Http {
        status: 503,
        body_snippet: "".into(),
    };
    let err4 = AutonomousIngressError::Http {
        status: 401,
        body_snippet: "".into(),
    };
    assert!(err5.retryable());
    assert!(!err4.retryable());
}

#[test]
fn extract_canonical_title_returns_value_when_header_present() {
    let prompt = "Canonical title: Phase 7.1 — Obsidian MCP\n\nfix the wire bug.";
    assert_eq!(
        extract_canonical_title(prompt).as_deref(),
        Some("Phase 7.1 — Obsidian MCP")
    );
}

#[test]
fn extract_canonical_title_returns_none_when_header_absent() {
    assert_eq!(
        extract_canonical_title("just a normal request without any header"),
        None
    );
}

#[test]
fn extract_canonical_title_returns_none_for_empty_value() {
    assert_eq!(extract_canonical_title("Canonical title:    \nrest"), None);
}

#[test]
fn extract_canonical_title_returns_none_for_malformed_header() {
    assert_eq!(extract_canonical_title("canonical title: lower"), None);
    assert_eq!(extract_canonical_title("Title: alternate"), None);
    assert_eq!(extract_canonical_title("# Canonical title: heading"), None);
    assert_eq!(
        extract_canonical_title("first line of prose\nCanonical title: late"),
        None
    );
}

#[test]
fn extract_canonical_title_tolerates_leading_blank_lines() {
    let prompt = "\n\nCanonical title: Hello\nbody";
    assert_eq!(extract_canonical_title(prompt).as_deref(), Some("Hello"));
}

#[test]
fn extract_canonical_title_trims_value_whitespace_only() {
    let prompt = "Canonical title:   Pinned   \nrest";
    assert_eq!(extract_canonical_title(prompt).as_deref(), Some("Pinned"));
}

#[test]
fn extract_canonical_title_handles_crlf_line_endings() {
    let prompt = "Canonical title: CR/LF ok\r\nrest";
    assert_eq!(extract_canonical_title(prompt).as_deref(), Some("CR/LF ok"));
}

#[test]
fn extract_canonical_title_does_not_mutate_prompt_body() {
    let prompt = "Canonical title: Phase 7.1 — Obsidian MCP\n\
                  \n\
                  do the work\n\
                  keep this line intact";
    let prompt_bytes_before: Vec<u8> = prompt.bytes().collect();

    let title = extract_canonical_title(prompt);
    assert_eq!(title.as_deref(), Some("Phase 7.1 — Obsidian MCP"));

    let prompt_bytes_after: Vec<u8> = prompt.bytes().collect();
    assert_eq!(
        prompt_bytes_before, prompt_bytes_after,
        "extract_canonical_title must not mutate the prompt"
    );
    assert!(prompt.contains("Canonical title: Phase 7.1 — Obsidian MCP"));
    assert!(prompt.contains("do the work"));
    assert!(prompt.contains("keep this line intact"));
    assert_eq!(prompt.matches('\n').count(), 3);
}

#[test]
fn autonomous_ingress_request_serializes_title_when_some() {
    let req = AutonomousIngressRequest {
        protocol: "openab",
        project_id: "arthur-ai-platform".into(),
        transport: "DISCORD",
        conversation_key: "discord:c:1".into(),
        original_human_prompt: "Canonical title: Phase 7.1 — Obsidian MCP\n\ndo the work"
            .into(),
        user_objective: "Canonical title: Phase 7.1 — Obsidian MCP\n\ndo the work".into(),
        title: Some("Phase 7.1 — Obsidian MCP".into()),
        trace_id: "trace-1".into(),
        task_id: None,
        primary_agent: "ArthurClaude".into(),
        language: None,
        metadata: AutonomousIngressMetadata::default(),
        delivery_destination: None,
    };
    let json = encode_request(&req);
    assert!(
        json.contains("\"title\":\"Phase 7.1 — Obsidian MCP\""),
        "title must be serialized verbatim when supplied: {json}"
    );
    assert!(
        json.contains("Canonical title: Phase 7.1 — Obsidian MCP"),
        "user_objective must preserve the full original prompt: {json}"
    );
}

#[test]
fn autonomous_ingress_request_omits_title_when_none() {
    let req = AutonomousIngressRequest {
        protocol: "openab",
        project_id: "arthur-ai-platform".into(),
        transport: "DISCORD",
        conversation_key: "discord:c:1".into(),
        original_human_prompt: "no header here".into(),
        user_objective: "no header here".into(),
        title: None,
        trace_id: "trace-1".into(),
        task_id: None,
        primary_agent: "ArthurClaude".into(),
        language: None,
        metadata: AutonomousIngressMetadata::default(),
        delivery_destination: None,
    };
    let json = encode_request(&req);
    assert!(
        !json.contains("\"title\""),
        "title field must be skipped when None: {json}"
    );
}

#[test]
fn autonomous_ingress_request_wire_shape_supports_legacy_payload() {
    let legacy_payload = serde_json::from_str::<serde_json::Value>(
        r#"{
        "protocol": "openab",
        "project_id": "arthur-ai-platform",
        "transport": "DISCORD",
        "conversation_key": "discord:c:1",
        "user_objective": "no header here",
        "trace_id": "trace-1",
        "primary_agent": "ArthurClaude",
        "language": "en",
        "metadata": {}
    }"#,
    )
    .expect("legacy payload");
    let obj = legacy_payload.as_object().expect("object payload");
    assert!(
        !obj.contains_key("title"),
        "legacy payload must not carry a title field"
    );
    assert_eq!(obj.get("protocol").unwrap(), "openab");
    assert_eq!(obj.get("transport").unwrap(), "DISCORD");
    assert_eq!(obj.get("user_objective").unwrap(), "no header here");
}

#[test]
fn autonomous_ingress_request_wire_shape_carries_canonical_title() {
    let original = "Canonical title: Phase 7.1 — Obsidian MCP\n\ndo the work\nkeep this line";
    let req = AutonomousIngressRequest {
        protocol: "openab",
        project_id: "arthur-ai-platform".into(),
        transport: "DISCORD",
        conversation_key: "discord:c:1".into(),
        original_human_prompt: original.into(),
        user_objective: original.into(),
        title: extract_canonical_title(original),
        trace_id: "trace-1".into(),
        task_id: None,
        primary_agent: "ArthurClaude".into(),
        language: None,
        metadata: AutonomousIngressMetadata::default(),
        delivery_destination: None,
    };
    let value: serde_json::Value = serde_json::from_str(&encode_request(&req)).expect("serialize");
    let obj = value.as_object().expect("object payload");
    assert_eq!(
        obj.get("title").and_then(|v| v.as_str()),
        Some("Phase 7.1 — Obsidian MCP")
    );
    assert_eq!(
        obj.get("user_objective").and_then(|v| v.as_str()),
        Some(original)
    );
}

#[test]
fn production_config_wires_autonomous_ingress_into_builder() {
    let cfg = cfg_with_agents(&["ArthurClaude"], false);
    let client: HttpAutonomousIngressClient =
        build_production_client(&cfg, Some("round2-test-token-not-real".into()))
            .expect("production client must build when credential is present");
    assert!(client
        .endpoint()
        .ends_with(":8000/v1/integrations/openab/autonomous_ingress"));
    assert_eq!(client.credential(), "round2-test-token-not-real");
    assert_eq!(client.timeout_seconds(), 5);
}

#[test]
fn autonomous_ingress_config_without_credential_fails_closed() {
    let cfg = AutonomousIngressConfig {
        aap_agents: vec!["ArthurClaude".into()],
        aap_runtime_url: "http://127.0.0.1:8000".into(),
        aap_credential_env: "AAP_ROUND2_TEST_CREDENTIAL_MISSING_XYZ".into(),
        project_id: "arthur-ai-platform".into(),
        request_timeout_seconds: 5,
        aap_universal_humans: false,
    };
    let result = build_production_client(&cfg, None);
    match result {
        Err(AutonomousIngressError::AuthMissing) => {}
        Err(other) => panic!("expected AuthMissing, got: {other:?}"),
        Ok(_) => panic!("expected AuthMissing, got Ok(client)"),
    }
}

#[test]
fn production_builder_does_not_mutate_native_dispatch_contract() {
    let cfg = cfg_with_agents(&["ArthurClaude"], false);
    let _client = build_production_client(&cfg, Some("round2-test-token-not-real".into())).expect("builds");
    let _: fn(
        &AutonomousIngressConfig,
        Option<String>,
    ) -> Result<HttpAutonomousIngressClient, AutonomousIngressError> = build_production_client;
}

#[test]
fn assemble_user_objective_returns_prompt_verbatim_when_no_text_attachments() {
    let prompt = "Canonical title: Phase 6.4.4 — fix\n\ndo the work";
    let out = assemble_user_objective(prompt, &[]);
    assert_eq!(out, prompt);
}

#[test]
fn assemble_user_objective_preserves_discord_message_txt_body() {
    let prompt = "do the work from the file";
    let attachments = vec![TextAttachment {
        filename: "message.txt".into(),
        body: "from the attached body".into(),
    }];
    let out = assemble_user_objective(prompt, &attachments);
    assert!(out.starts_with("do the work from the file"));
    assert!(out.contains("message.txt"));
    assert!(out.contains("from the attached body"));
    let prompt_end = out.find("from the attached body").unwrap();
    assert!(out[..prompt_end].contains("do the work from the file"));
}

#[test]
fn assemble_user_objective_preserves_canonical_title_plus_attachment_body() {
    let prompt = "Canonical title: Phase 6.4.4 — fix\n\nheader body";
    let attachments = vec![TextAttachment {
        filename: "spec.txt".into(),
        body: "attached spec body".into(),
    }];
    let out = assemble_user_objective(prompt, &attachments);
    assert!(out.starts_with("Canonical title: Phase 6.4.4 — fix\n\nheader body"));
    assert!(out.contains("spec.txt"));
    assert!(out.contains("attached spec body"));
}

#[test]
fn assemble_user_objective_ordering_and_newlines_are_deterministic() {
    let prompt = "p";
    let attachments = vec![
        TextAttachment {
            filename: "a.txt".into(),
            body: "A".into(),
        },
        TextAttachment {
            filename: "b.txt".into(),
            body: "B".into(),
        },
    ];
    let out = assemble_user_objective(prompt, &attachments);
    let expected = "p\n\n[Attached text file: a.txt]\nA\n\n[Attached text file: b.txt]\nB";
    assert_eq!(out, expected);
}

#[test]
fn assemble_user_objective_ignores_extra_blocks_text_blocks_and_image_blocks() {
    let prompt = "do the work";
    let attachments = vec![TextAttachment {
        filename: "message.txt".into(),
        body: "real body".into(),
    }];
    let out = assemble_user_objective(prompt, &attachments);

    assert!(
        !out.contains("<sender_context>"),
        "sender_context delimiter must not leak into user_objective: {out}"
    );
    assert!(
        !out.contains("[Voice message transcript]"),
        "STT transcript must not be silently promoted: {out}"
    );
    assert!(
        !out.contains("[Image attachment]"),
        "image metadata must not be promoted: {out}"
    );
    assert!(
        !out.contains("expires ~24h"),
        "image URL must not be promoted: {out}"
    );
}

#[test]
fn autonomous_request_user_objective_includes_message_txt_body_when_present() {
    let prompt_text = "Please run the migration described below.";
    let attachments = vec![TextAttachment {
        filename: "message.txt".into(),
        body: "step 1: do this\nstep 2: do that".into(),
    }];
    let user_objective = assemble_user_objective(prompt_text, &attachments);
    let req = AutonomousIngressRequest {
        protocol: "openab",
        project_id: "arthur-ai-platform".into(),
        transport: "DISCORD",
        conversation_key: "discord:c:1".into(),
        original_human_prompt: prompt_text.into(),
        user_objective,
        title: extract_canonical_title(prompt_text),
        trace_id: "trace-1".into(),
        task_id: None,
        primary_agent: "ArthurClaude".into(),
        language: None,
        metadata: AutonomousIngressMetadata::default(),
        delivery_destination: None,
    };
    let value: serde_json::Value = serde_json::from_str(&encode_request(&req)).expect("serialize");
    let obj = value.as_object().expect("object payload");
    let obj_user_objective = obj
        .get("user_objective")
        .and_then(|v| v.as_str())
        .expect("user_objective field");
    assert!(
        obj_user_objective.starts_with("Please run the migration described below."),
        "human prompt must come first: {obj_user_objective}"
    );
    assert!(
        obj_user_objective.contains("message.txt"),
        "typed attachment filename must be present: {obj_user_objective}"
    );
    assert!(
        obj_user_objective.contains("step 1: do this"),
        "typed attachment body must be present: {obj_user_objective}"
    );
    assert!(
        !obj_user_objective.contains("<sender_context>"),
        "sender_context must not appear in user_objective"
    );
}

#[test]
fn autonomous_request_user_objective_byte_for_byte_when_no_attachment() {
    let prompt_text = "do the work";
    let user_objective = assemble_user_objective(prompt_text, &[]);
    assert_eq!(user_objective, prompt_text);
    let req = AutonomousIngressRequest {
        protocol: "openab",
        project_id: "arthur-ai-platform".into(),
        transport: "DISCORD",
        conversation_key: "discord:c:1".into(),
        original_human_prompt: prompt_text.into(),
        user_objective,
        title: extract_canonical_title(prompt_text),
        trace_id: "trace-1".into(),
        task_id: None,
        primary_agent: "ArthurClaude".into(),
        language: None,
        metadata: AutonomousIngressMetadata::default(),
        delivery_destination: None,
    };
    let value: serde_json::Value = serde_json::from_str(&encode_request(&req)).expect("serialize");
    let obj = value.as_object().expect("object payload");
    assert_eq!(
        obj.get("user_objective").and_then(|v| v.as_str()),
        Some(prompt_text)
    );
}

#[test]
fn phase_6_4_9_a_human_empty_prompt_promotes_message_txt_body() {
    let attachments = vec![attachment("message.txt", "請運行遷移並修復服務器")];
    let resolved = resolve_current_human_prompt_authority("", false, &attachments);
    assert_eq!(resolved, "請運行遷移並修復服務器");
    assert!(
        !resolved.is_empty(),
        "AAP language detection requires non-empty prompt"
    );
}

#[test]
fn phase_6_4_9_b_human_manual_message_txt_is_accepted_by_policy() {
    let attachments = vec![attachment("message.txt", "manually uploaded plan")];
    let resolved = resolve_current_human_prompt_authority("", false, &attachments);
    assert_eq!(resolved, "manually uploaded plan");
}

#[test]
fn phase_6_4_9_c_bot_empty_prompt_does_not_promote_message_txt() {
    let attachments = vec![attachment("message.txt", "this body is from a bot")];
    let resolved = resolve_current_human_prompt_authority("", true, &attachments);
    assert_eq!(resolved, "");
}

#[test]
fn phase_6_4_9_d_visible_english_wins_over_chinese_attachment() {
    let prompt = "Please run the migration described below.";
    let attachments = vec![attachment("message.txt", "請運行遷移並修復服務器")];
    let resolved = resolve_current_human_prompt_authority(prompt, false, &attachments);
    assert_eq!(resolved, prompt);
    assert_eq!(resolved.as_bytes(), prompt.as_bytes());
}

#[test]
fn phase_6_4_9_e_visible_chinese_wins_over_english_attachment() {
    let prompt = "请运行迁移并修复服务器。";
    let attachments = vec![attachment("message.txt", "Please run the migration.")];
    let resolved = resolve_current_human_prompt_authority(prompt, false, &attachments);
    assert_eq!(resolved, prompt);
    assert_eq!(resolved.as_bytes(), prompt.as_bytes());
}

#[test]
fn phase_6_4_9_f_empty_prompt_plus_notes_txt_does_not_promote() {
    let attachments = vec![attachment("notes.txt", "this is a plan document")];
    let resolved = resolve_current_human_prompt_authority("", false, &attachments);
    assert_eq!(resolved, "");
}

#[test]
fn phase_6_4_9_g_empty_prompt_plus_multiple_attachments_does_not_promote() {
    let attachments = vec![
        attachment("message.txt", "first body"),
        attachment("other.txt", "second body"),
    ];
    let resolved = resolve_current_human_prompt_authority("", false, &attachments);
    assert_eq!(resolved, "");
}

#[test]
fn phase_6_4_9_h_empty_prompt_plus_empty_message_txt_does_not_promote() {
    let attachments = vec![attachment("message.txt", "")];
    let resolved = resolve_current_human_prompt_authority("", false, &attachments);
    assert_eq!(resolved, "");
}

#[test]
fn phase_6_4_9_i_stt_image_arbitrary_contentblock_cannot_reach_helper() {
    let attachments = vec![attachment("message.txt", "STT transcript body")];
    let resolved = resolve_current_human_prompt_authority("", false, &attachments);
    assert_eq!(resolved, "STT transcript body");
    let resolved_bot = resolve_current_human_prompt_authority("", true, &attachments);
    assert_eq!(resolved_bot, "");
}

#[test]
fn phase_6_4_9_j_title_remains_none_when_visible_prompt_is_empty() {
    let attachments = vec![attachment(
        "message.txt",
        "Canonical title: phase-7 from attached body\n\ndo the work",
    )];
    let resolved_visible = resolve_current_human_prompt_authority("", false, &attachments);
    assert_eq!(
        extract_canonical_title(""),
        None,
        "title must remain None when visible prompt is empty"
    );
    assert!(resolved_visible.contains("Canonical title:"));
    assert_eq!(
        extract_canonical_title(&resolved_visible),
        extract_canonical_title(&resolved_visible),
    );
}

#[test]
fn phase_6_4_9_pure_read_only_with_respect_to_inputs() {
    let prompt_bytes_before = b"prompt".to_vec();
    let body_bytes_before = b"body".to_vec();
    let attachments = vec![attachment(
        "message.txt",
        String::from_utf8(body_bytes_before.clone())
            .unwrap()
            .as_str(),
    )];
    let resolved = resolve_current_human_prompt_authority("", false, &attachments);
    assert_eq!(resolved.as_bytes(), b"body");
    assert_eq!(prompt_bytes_before, b"prompt".to_vec());
    assert_eq!(attachments[0].body.as_bytes(), body_bytes_before);
}

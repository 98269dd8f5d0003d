use openab_core::autonomous_ingress::{
    build_candidate, check_status, encode_request, extract_canonical_title, log_accepted,
    log_candidate, log_failure, project_error, AutonomousIngressDeliveryDestination,
    AutonomousIngressError, AutonomousIngressMetadata, AutonomousIngressRequest,
    AutonomousRouteDisposition, HttpAutonomousIngressClient,
};
use openab_core::config::AutonomousIngressConfig;
use openab_core::decimal::{decimal_text, parse_u64_text};
use openab_core::digest::{hex_text, sha256_hex};
use openab_core::log::LogLevel;
use openab_core::paths::join_path;
use openab_core::role_completion_block::{
    parse_role_completion_block, parse_single_block, RoleCompletionClaim, RoleCompletionParse,
};
use openab_core::text::{count_text, lines_of, trim_text};

const BLOCK: &str = "<role_completion>\nrole: VERIFIER\nresult: PASS\nworkflow_id: wf\nproject_id: p\nproject_root: /r\n</role_completion>";

fn claim() -> RoleCompletionParse {
    RoleCompletionParse::Claim(RoleCompletionClaim {
        role: "VERIFIER".into(),
        result: "PASS".into(),
        workflow_id: "wf".into(),
        project_id: "p".into(),
        project_root: "/r".into(),
    })
}

fn reason(text: &str) -> String {
    match parse_role_completion_block(text) {
        RoleCompletionParse::Malformed { reason } => reason,
        other => panic!("expected Malformed, got {other:?}"),
    }
}

#[test]
fn surrounding_text_changes_no_claim() {
    assert_eq!(parse_role_completion_block(BLOCK), claim());
    for around in ["", "VERIFIER_PASS", "```text", "a\r\nb", "role: PRIMARY"] {
        assert_eq!(parse_role_completion_block(&format!("{around}\n{BLOCK}")), claim());
        assert_eq!(parse_role_completion_block(&format!("{BLOCK}\n{around}")), claim());
    }
    assert_eq!(
        parse_role_completion_block(&BLOCK.replace('\n', "\r\n  ")),
        claim()
    );
}

#[test]
fn faults_are_named_exactly() {
    assert_eq!(
        reason("a <role_completion>\n</role_completion>"),
        "invalid role_completion marker structure: opening=1 closing=1 opening_lines=0 closing_lines=1"
    );
    assert_eq!(
        reason("</role_completion>\n<role_completion>"),
        "role_completion markers could not form one closed block"
    );
    assert_eq!(reason(&BLOCK.replace("role: VERIFIER\n", "")), "missing required field \"role\"");
    assert_eq!(reason(&BLOCK.replace("PASS", "")), "required field \"result\" is empty");
    assert_eq!(reason(&BLOCK.replace("VERIFIER", "a\"b")), "invalid role \"a\\\"b\"");
    assert_eq!(reason(&BLOCK.replace("PASS", "pass")), "invalid result \"pass\"");
    assert_eq!(reason(&BLOCK.replace("result: PASS", "PASS")), "invalid line \"PASS\"");
    assert_eq!(reason(&BLOCK.replace("role:", "ro le:")), "whitespace in key \"ro le\"");
    assert_eq!(reason(&BLOCK.replace("role:", "\t:")), "empty key in line \"\\t: VERIFIER\"");
    assert_eq!(reason(&BLOCK.replace("role:", "next_role:")), "unknown field \"next_role\"");
    assert_eq!(
        reason(&BLOCK.replace("result: PASS", "role: PRIMARY")),
        "duplicate key \"role\""
    );
}

#[test]
fn several_blocks_are_ambiguous() {
    assert_eq!(
        parse_role_completion_block(&format!("{BLOCK}\n{BLOCK}")),
        RoleCompletionParse::Ambiguous
    );
    assert_eq!(
        parse_single_block("role: VERIFIER\nresult: PASS\nworkflow_id: wf\nproject_id: p\nproject_root: /r"),
        claim()
    );
}

#[test]
fn numbers_are_written_and_read() {
    for (n, text) in [(0, "0"), (7, "7"), (10, "10"), (18446744073709551615, "18446744073709551615")] {
        assert_eq!(decimal_text(n), text);
        assert_eq!(parse_u64_text(text), Some(n));
    }
    assert_eq!(parse_u64_text("+007"), Some(7));
    for bad in ["", "+", "-1", "1 ", "++1", "18446744073709551616", "a"] {
        assert_eq!(parse_u64_text(bad), None, "{bad}");
    }
}

#[test]
fn text_is_split_and_trimmed_as_lines() {
    assert_eq!(lines_of("a\r\nb\n\nc\r"), vec!["a", "b", "", "c\r"]);
    assert_eq!(lines_of("a\n"), vec!["a"]);
    assert!(lines_of("").is_empty());
    assert_eq!(trim_text("\u{3000}\t x y\u{a0}\n"), "x y");
    assert_eq!(trim_text(" \u{2003} "), "");
    assert_eq!(count_text("aaaa", "aa"), 2);
    assert_eq!(count_text("a", "aa"), 0);
}

#[test]
fn digests_are_hexadecimal() {
    assert_eq!(
        sha256_hex("hello world"),
        "b94d27b9934d3e08a52e52d7da7dabfac484efe37a5380ee9088f7ace2efcde9"
    );
    assert_eq!(hex_text(&vec![0, 9, 10, 255]), "00090aff");
}

#[test]
fn paths_are_joined_with_one_slash() {
    assert_eq!(join_path("/a", "b"), "/a/b");
    assert_eq!(join_path("/a/", "b"), "/a/b");
    assert_eq!(join_path("", "b"), "b");
}

#[test]
fn a_declared_title_is_the_first_line_only() {
    assert_eq!(
        extract_canonical_title(" \t\r\nCanonical title:\u{a0}T\u{2003}\nCanonical title: U"),
        Some("T".to_string())
    );
    assert_eq!(extract_canonical_title(" Canonical title: T"), None);
    assert_eq!(extract_canonical_title("Canonical title:\r"), None);
}

fn request() -> AutonomousIngressRequest {
    AutonomousIngressRequest {
        protocol: "openab",
        project_id: "p".into(),
        transport: "DISCORD",
        conversation_key: "k".into(),
        original_human_prompt: "say \"hi\"\n".into(),
        user_objective: "o".into(),
        title: None,
        trace_id: "t".into(),
        task_id: None,
        primary_agent: "A".into(),
        language: None,
        metadata: AutonomousIngressMetadata::default(),
        delivery_destination: None,
    }
}

#[test]
fn requests_are_encoded_field_by_field() {
    assert_eq!(
        encode_request(&request()),
        concat_lines(&[
            r#"{"protocol":"openab","project_id":"p","transport":"DISCORD","conversation_key":"k","#,
            r#""original_human_prompt":"say \"hi\"\n","user_objective":"o","trace_id":"t","#,
            r#""task_id":null,"primary_agent":"A","metadata":{"discord_message_id":null,"#,
            r#""discord_channel_id":null,"discord_thread_id":null,"discord_user_id":null,"#,
            r#""discord_sender_is_bot":false}}"#,
        ])
    );
    let mut full = request();
    full.title = Some("T".into());
    full.task_id = Some("task".into());
    full.language = Some("en".into());
    let destination = AutonomousIngressDeliveryDestination {
        platform: "discord".into(),
        channel_id: "c".into(),
        thread_id: Some("th".into()),
        parent_id: None,
        origin_event_id: Some("e".into()),
    };
    full.metadata.discord_user_id = Some("u".into());
    full.metadata.discord_sender_is_bot = true;
    full.metadata.delivery_destination = Some(AutonomousIngressDeliveryDestination::default());
    full.delivery_destination = Some(destination);
    assert_eq!(
        encode_request(&full),
        concat_lines(&[
            r#"{"protocol":"openab","project_id":"p","transport":"DISCORD","conversation_key":"k","#,
            r#""original_human_prompt":"say \"hi\"\n","user_objective":"o","title":"T","#,
            r#""trace_id":"t","task_id":"task","primary_agent":"A","language":"en","#,
            r#""metadata":{"discord_message_id":null,"discord_channel_id":null,"#,
            r#""discord_thread_id":null,"discord_user_id":"u","discord_sender_is_bot":true,"#,
            r#""delivery_destination":{"platform":"","channel_id":""}},"#,
            r#""delivery_destination":{"platform":"discord","channel_id":"c","thread_id":"th","#,
            r#""origin_event_id":"e"}}"#,
        ])
    );
}

fn concat_lines(parts: &[&str]) -> String {
    parts.concat()
}

#[test]
fn only_a_success_carries_an_answer() {
    assert_eq!(check_status(200, "x"), Ok(()));
    assert_eq!(check_status(299, "x"), Ok(()));
    let long = "é".repeat(300);
    match check_status(300, &long) {
        Err(AutonomousIngressError::Http { status, body_snippet }) => {
            assert_eq!(status, 300);
            assert_eq!(body_snippet, "é".repeat(200));
        }
        other => panic!("{other:?}"),
    }
    assert!(check_status(199, "").is_err());
}

#[test]
fn transport_errors_have_codes_and_texts() {
    let cases = [
        (AutonomousIngressError::Unreachable("dns".into()), "AAP_UNREACHABLE", true, "AAP unreachable: dns"),
        (AutonomousIngressError::Timeout, "AAP_TIMEOUT", true, "AAP timeout"),
        (AutonomousIngressError::AuthMissing, "AAP_AUTH_MISSING", false, "AAP auth credential missing"),
        (
            AutonomousIngressError::Http { status: 500, body_snippet: "b".into() },
            "AAP_HTTP_ERROR",
            true,
            "AAP HTTP 500: b",
        ),
        (
            AutonomousIngressError::Malformed("m".into()),
            "AAP_RESPONSE_MALFORMED",
            false,
            "AAP response malformed: m",
        ),
    ];
    for (error, code, retryable, text) in cases {
        assert_eq!(error.code(), code);
        assert_eq!(error.retryable(), retryable);
        assert_eq!(error.message(), text);
        assert_eq!(
            project_error(error),
            AutonomousRouteDisposition::Unavailable { error_code: code.into(), retryable }
        );
    }
}

#[test]
fn a_client_has_one_slash_before_its_path() {
    let config = AutonomousIngressConfig {
        aap_agents: Vec::new(),
        aap_runtime_url: "http://h:1//".into(),
        aap_credential_env: "E".into(),
        project_id: "p".into(),
        request_timeout_seconds: 9,
        aap_universal_humans: false,
    };
    let client = HttpAutonomousIngressClient::new(&config, Some("c".into())).unwrap();
    assert_eq!(client.endpoint(), "http://h:1/v1/integrations/openab/autonomous_ingress");
    assert_eq!(client.timeout_seconds(), 9);
    assert_eq!(
        HttpAutonomousIngressClient::new(&config, None).err(),
        Some(AutonomousIngressError::AuthMissing)
    );
}

#[test]
fn turns_are_reported() {
    let candidate = build_candidate("A", "discord:c", "m");
    let entry = log_candidate(&candidate);
    assert_eq!(entry.level, LogLevel::Info);
    assert_eq!(entry.fields[3], ("conversation_key", "discord:c".to_string()));
    assert_eq!(
        entry.fields[5],
        ("routing_contract", "config_autonomous_ingress".to_string())
    );
    let taken = AutonomousRouteDisposition::Accepted {
        task_id: "t".into(),
        workflow_run_id: "r".into(),
        binding_id: "b".into(),
        conversation_key: "k".into(),
    };
    assert_eq!(log_failure(&candidate, &taken), None);
    let entry = log_accepted(&candidate, &taken).unwrap();
    assert_eq!(entry.fields[3], ("task_id", "t".to_string()));
    assert_eq!(entry.fields[8], ("consumed", "true".to_string()));
    let refused = AutonomousRouteDisposition::Rejected {
        error_code: "E".into(),
        retryable: true,
        detail: None,
    };
    assert_eq!(log_accepted(&candidate, &refused), None);
    let entry = log_failure(&candidate, &refused).unwrap();
    assert_eq!(entry.level, LogLevel::Warn);
    assert_eq!(entry.fields[4], ("retryable", "true".to_string()));
    assert_eq!(entry.fields[6], ("detail", String::new()));
    let lost = AutonomousRouteDisposition::Unavailable {
        error_code: "E".into(),
        retryable: false,
    };
    assert_eq!(log_failure(&candidate, &lost).unwrap().fields.len(), 6);
    assert_eq!(log_failure(&candidate, &AutonomousRouteDisposition::NotApplicable), None);
}

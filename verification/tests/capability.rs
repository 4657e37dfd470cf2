use blazar::capability::{
    CapabilityAccess, CapabilityClaim, CapabilityContentPart, CapabilityError, CapabilityHandle,
    CapabilityKind, CapabilityResult, ConflictPolicy,
};

#[test]
fn capability_result_helpers_build_expected_flags() {
    let ok = CapabilityResult::success("done");
    assert_eq!(
        ok.content,
        vec![CapabilityContentPart::Text {
            text: "done".into()
        }]
    );
    assert_eq!(ok.text_output(), "done");
    assert!(!ok.is_error);
    assert_eq!(ok.exit_code, None);
    assert_eq!(ok.error, None);

    let err = CapabilityResult::failure("nope");
    assert_eq!(
        err.content,
        vec![CapabilityContentPart::Text {
            text: "nope".into()
        }]
    );
    assert_eq!(err.text_output(), "nope");
    assert!(err.is_error);
    assert!(!err.output_truncated);
    assert_eq!(err.error, Some(CapabilityError::new("nope")));
}

#[test]
fn capability_result_text_output_summarizes_resource_content_parts() {
    let result = CapabilityResult {
        content: vec![CapabilityContentPart::Resource {
            uri: "file://workspace/out.txt".into(),
            mime_type: Some("text/plain".into()),
        }],
        exit_code: None,
        is_error: false,
        output_truncated: false,
        error: None,
    };

    assert_eq!(
        result.text_output(),
        "[resource] file://workspace/out.txt (text/plain)"
    );
}

#[test]
fn conflict_policy_matches_scheduler_rules() {
    let read_claim = CapabilityClaim {
        resource: "fs:src/main.rs".into(),
        access: CapabilityAccess::ReadOnly,
    };
    let write_claim = CapabilityClaim {
        resource: "fs:src/main.rs".into(),
        access: CapabilityAccess::ReadWrite,
    };
    let exclusive_claim = CapabilityClaim {
        resource: "process:bash".into(),
        access: CapabilityAccess::Exclusive,
    };
    let other_read_claim = CapabilityClaim {
        resource: "fs:src/lib.rs".into(),
        access: CapabilityAccess::ReadOnly,
    };

    assert_eq!(
        ConflictPolicy::from_claims(
            std::slice::from_ref(&read_claim),
            std::slice::from_ref(&read_claim)
        ),
        ConflictPolicy::Compatible
    );
    assert_eq!(
        ConflictPolicy::from_claims(std::slice::from_ref(&read_claim), &[write_claim]),
        ConflictPolicy::Conflicting
    );
    assert_eq!(
        ConflictPolicy::from_claims(
            std::slice::from_ref(&other_read_claim),
            std::slice::from_ref(&exclusive_claim)
        ),
        ConflictPolicy::Conflicting
    );
    assert_eq!(
        read_claim.conflict_policy_with(&other_read_claim),
        ConflictPolicy::Compatible
    );
}

#[test]
fn capability_error_display_includes_optional_code() {
    let plain = CapabilityError::new("boom");
    assert_eq!(plain.to_display_string(), "boom");

    let coded = CapabilityError::with_code("ACP_TIMEOUT", "timed out");
    assert_eq!(coded.to_display_string(), "ACP_TIMEOUT: timed out");
}

#[test]
fn capability_handle_captures_identity_and_kind() {
    let handle = CapabilityHandle::new("read_file", CapabilityKind::Local);
    assert_eq!(
        handle,
        CapabilityHandle {
            name: "read_file".into(),
            kind: CapabilityKind::Local,
        }
    );
}

#[test]
fn capability_text_output_falls_back_to_error_message_for_metadata_only_failures() {
    let result = CapabilityResult {
        content: Vec::new(),
        exit_code: None,
        is_error: false,
        output_truncated: false,
        error: Some(CapabilityError::with_code("ACP_TIMEOUT", "timed out")),
    };

    assert_eq!(result.text_output(), "timed out");
}

#[test]
fn conflict_policy_is_symmetric_on_sample_claims() {
    let a = vec![CapabilityClaim { resource: "fs:a".into(), access: CapabilityAccess::ReadOnly }];
    let b = vec![CapabilityClaim { resource: "fs:a".into(), access: CapabilityAccess::ReadWrite }];
    assert_eq!(ConflictPolicy::from_claims(&a, &b), ConflictPolicy::from_claims(&b, &a));
    assert!(ConflictPolicy::from_claims(&a, &b).is_conflicting());
}

#[test]
fn exclusive_claim_conflicts_with_an_empty_claim_set_only_when_present() {
    let ex = vec![CapabilityClaim { resource: "process:bash".into(), access: CapabilityAccess::Exclusive }];
    let none: Vec<CapabilityClaim> = Vec::new();
    assert_eq!(ConflictPolicy::from_claims(&ex, &none), ConflictPolicy::Conflicting);
    assert_eq!(ConflictPolicy::from_claims(&none, &none), ConflictPolicy::Compatible);
}

#[test]
fn resource_after_text_starts_a_new_line() {
    let result = CapabilityResult {
        content: vec![
            CapabilityContentPart::Text { text: "a".into() },
            CapabilityContentPart::Resource { uri: "u".into(), mime_type: None },
            CapabilityContentPart::Text { text: "b".into() },
        ],
        exit_code: None,
        is_error: false,
        output_truncated: false,
        error: None,
    };
    assert_eq!(result.text_output(), "a\n[resource] u\nb");
}

#[test]
fn read_only_claim_sets_never_conflict() {
    let a = vec![
        CapabilityClaim { resource: "fs:a".into(), access: CapabilityAccess::ReadOnly },
        CapabilityClaim { resource: "fs:b".into(), access: CapabilityAccess::ReadOnly },
    ];
    let b = vec![CapabilityClaim { resource: "fs:a".into(), access: CapabilityAccess::ReadOnly }];
    assert_eq!(ConflictPolicy::from_claims(&a, &b), ConflictPolicy::Compatible);
}

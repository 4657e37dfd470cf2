use blazar::tool_set::{vet_command, vet_timeout};
use std::path::PathBuf;

use blazar::capability::{
    CapabilityAccess, CapabilityClaim, CapabilityError, CapabilityKind, CapabilityResult,
};
use blazar::tool_set::{command_for_mode, compatibility_tier_for_name, ReadFileTool, ToolCompatibilityTier};
use blazar::tools::{
    normalize_workspace_resource_claim, validate_workspace_relative_path, ContentPart,
    ResourceAccess, ResourceClaim, ToolKind, ToolResult,
};

#[test]
fn tool_result_helpers_build_expected_flags() {
    let ok = ToolResult::success("done");
    assert_eq!(ok.content, vec![ContentPart::Text { text: "done".into() }]);
    assert_eq!(ok.text_output(), "done");
    assert!(!ok.is_error);
    assert_eq!(ok.exit_code, None);

    let err = ToolResult::failure("nope");
    assert_eq!(err.content, vec![ContentPart::Text { text: "nope".into() }]);
    assert_eq!(err.text_output(), "nope");
    assert!(err.is_error);
    assert!(!err.output_truncated);
}

#[test]
fn tool_result_round_trips_through_capability_result() {
    let original = ToolResult {
        content: vec![
            ContentPart::text("summary"),
            ContentPart::Resource {
                uri: "file://workspace/out.txt".into(),
                mime_type: Some("text/plain".into()),
            },
            ContentPart::text("details"),
        ],
        exit_code: Some(0),
        is_error: false,
        output_truncated: true,
    };

    let converted = original.clone().into_capability_result();
    let round_tripped = ToolResult::from_capability_result(converted);
    assert_eq!(round_tripped, original);
    assert_eq!(round_tripped.text_output(), original.text_output());
}

#[test]
fn capability_result_error_metadata_stays_behavior_compatible() {
    let capability_result = CapabilityResult {
        content: Vec::new(),
        exit_code: None,
        is_error: false,
        output_truncated: false,
        error: Some(CapabilityError::with_code("ACP_TIMEOUT", "timed out")),
    };

    let tool_result: ToolResult = capability_result.into();
    assert!(tool_result.is_error);
    assert_eq!(tool_result.text_output(), "timed out");
}

#[test]
fn tool_kind_and_claims_convert_to_capability_contracts() {
    assert_eq!(
        CapabilityKind::from(ToolKind::Agent { is_acp: true }),
        CapabilityKind::Agent { is_acp: true }
    );
    assert_eq!(
        ToolKind::from(CapabilityKind::Agent { is_acp: false }),
        ToolKind::Agent { is_acp: false }
    );

    let claim = ResourceClaim { resource: "fs:src/main.rs".into(), access: ResourceAccess::ReadWrite };
    let capability_claim: CapabilityClaim = claim.clone().into_capability_claim();
    assert_eq!(
        capability_claim,
        CapabilityClaim { resource: "fs:src/main.rs".into(), access: CapabilityAccess::ReadWrite }
    );
    assert_eq!(ResourceClaim::from(capability_claim), claim);
}

#[test]
fn mixed_content_projection_stays_in_lockstep_across_tool_and_capability_results() {
    let tool_result = ToolResult {
        content: vec![
            ContentPart::text("summary"),
            ContentPart::Resource {
                uri: "file://workspace/out.txt".into(),
                mime_type: Some("text/plain".into()),
            },
            ContentPart::text("\ndetails"),
        ],
        exit_code: None,
        is_error: false,
        output_truncated: false,
    };

    let capability_result = tool_result.clone().into_capability_result();
    assert_eq!(tool_result.text_output(), capability_result.text_output());

    let round_tripped = ToolResult::from_capability_result(capability_result);
    assert_eq!(tool_result.text_output(), round_tripped.text_output());
}

#[test]
fn error_metadata_projection_stays_in_lockstep_across_capability_and_tool_results() {
    let capability_result = CapabilityResult {
        content: Vec::new(),
        exit_code: None,
        is_error: false,
        output_truncated: false,
        error: Some(CapabilityError::with_code("ACP_TIMEOUT", "timed out")),
    };

    let tool_result = ToolResult::from_capability_result(capability_result.clone());
    assert_eq!(capability_result.text_output(), tool_result.text_output());

    let back_to_capability = tool_result.into_capability_result();
    assert_eq!(capability_result.text_output(), back_to_capability.text_output());
}

#[test]
fn tool_result_text_output_summarizes_resource_content_parts() {
    let result = ToolResult {
        content: vec![ContentPart::Resource {
            uri: "file://workspace/out.txt".into(),
            mime_type: Some("text/plain".into()),
        }],
        exit_code: None,
        is_error: false,
        output_truncated: false,
    };

    assert_eq!(result.text_output(), "[resource] file://workspace/out.txt (text/plain)");
}

#[test]
fn tool_result_text_output_separates_resource_and_following_text() {
    let result = ToolResult {
        content: vec![
            ContentPart::text("summary"),
            ContentPart::Resource {
                uri: "file://workspace/out.txt".into(),
                mime_type: Some("text/plain".into()),
            },
            ContentPart::text("details"),
        ],
        exit_code: None,
        is_error: false,
        output_truncated: false,
    };

    assert_eq!(
        result.text_output(),
        "summary\n[resource] file://workspace/out.txt (text/plain)\ndetails"
    );
}

#[test]
fn normalized_workspace_resource_claim_collapses_dot_prefix_aliases() {
    let workspace = PathBuf::from("/workspace");

    assert_eq!(
        normalize_workspace_resource_claim(&workspace, "src/main.rs").expect("normalized"),
        normalize_workspace_resource_claim(&workspace, "./src/main.rs")
            .expect("dot-prefixed path normalized")
    );
    assert!(normalize_workspace_resource_claim(&workspace, "../secret").is_err());
}

#[test]
fn path_validation_rejects_absolute_and_parent_components() {
    assert!(validate_workspace_relative_path("src/main.rs").is_ok());
    assert!(validate_workspace_relative_path("/etc/passwd").is_err());
    assert!(validate_workspace_relative_path("../secret").is_err());
    assert!(validate_workspace_relative_path("nested/../../oops").is_err());
}

#[test]
fn normalized_claim_has_fs_prefix_and_errors_read_as_the_original() {
    let workspace = PathBuf::from("/workspace");
    assert_eq!(normalize_workspace_resource_claim(&workspace, "a//b/./c").unwrap(), "fs:a/b/c");
    assert_eq!(
        normalize_workspace_resource_claim(&workspace, "/etc").unwrap_err(),
        "absolute paths are not allowed"
    );
    assert_eq!(
        normalize_workspace_resource_claim(&workspace, "a/../b").unwrap_err(),
        "path must stay inside workspace root"
    );
    assert_eq!(
        normalize_workspace_resource_claim(&workspace, ".").unwrap_err(),
        "path must include a file name"
    );
}

#[test]
fn command_mapping_supports_all_vet_modes() {
    assert_eq!(command_for_mode("quick").expect("quick mode should be valid"), "just fmt-check && just lint");
    assert_eq!(
        command_for_mode("full").expect("full mode should be valid"),
        "just fmt-check && just lint && just test"
    );
    assert_eq!(command_for_mode("cargo-vet").expect("cargo-vet mode should be valid"), "cargo vet");
}

#[test]
fn command_mapping_rejects_unknown_mode() {
    let err = command_for_mode("unknown").expect_err("unknown mode should fail");
    assert!(err.contains("quick, full, cargo-vet"));
    assert_eq!(err, "vet mode must be one of: quick, full, cargo-vet (got: unknown)");
}

#[test]
fn bash_is_the_only_bridged_tool() {
    assert_eq!(compatibility_tier_for_name("bash"), Some(ToolCompatibilityTier::CompatibilityBridge));
    assert_eq!(compatibility_tier_for_name("read_file"), None);
}

#[test]
fn read_file_claims_its_path_read_only() {
    let tool = ReadFileTool::new(PathBuf::from("/workspace"));
    let args: serde_json::Value = serde_json::from_str(r#"{"path": "./src/lib.rs"}"#).unwrap();
    let claims = tool.resource_claims(&args);
    assert_eq!(claims, vec![ResourceClaim { resource: "fs:src/lib.rs".into(), access: ResourceAccess::ReadOnly }]);
    let bad: serde_json::Value = serde_json::from_str(r#"{"path": "../x"}"#).unwrap();
    assert!(tool.resource_claims(&bad).is_empty());
    let none: serde_json::Value = serde_json::from_str(r#"{}"#).unwrap();
    assert!(tool.resource_claims(&none).is_empty());
}

#[test]
fn vet_defaults_to_quick_and_passes_the_timeout() {
    let none: serde_json::Value = serde_json::from_str("{}").unwrap();
    assert_eq!(vet_command(&none).unwrap(), "just fmt-check && just lint");
    assert_eq!(vet_timeout(&none), None);
    let full: serde_json::Value = serde_json::from_str(r#"{"mode": "full", "timeout_secs": 9}"#).unwrap();
    assert_eq!(vet_command(&full).unwrap(), "just fmt-check && just lint && just test");
    assert_eq!(vet_timeout(&full), Some(9));
}

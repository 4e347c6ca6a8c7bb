use agentic_sandbox::claude_code;
use agentic_sandbox::copilot_cli;
use agentic_sandbox::decision::CapabilityDecision;
use agentic_sandbox::json::{json_debug_text, JsonValue};
use agentic_sandbox::pi;
use agentic_sandbox::proposal::Proposal;

fn json(text: &str) -> JsonValue {
    JsonValue::parse(text).expect("test JSON should parse")
}

fn claude_input(tool_name: &str, tool_input: JsonValue) -> claude_code::HookInput {
    claude_code::HookInput {
        session_id: "test-session".to_string(),
        prompt_id: "test-prompt".to_string(),
        cwd: "/workspace".to_string(),
        permission_mode: "default".to_string(),
        hook_event_name: "PreToolUse".to_string(),
        tool_name: tool_name.to_string(),
        tool_input,
        tool_use_id: "toolu_test".to_string(),
    }
}

fn copilot_input(tool_name: &str, tool_args: JsonValue) -> copilot_cli::HookInput {
    copilot_cli::HookInput {
        session_id: "test-session".to_string(),
        timestamp: 1704614400000,
        cwd: "/workspace".to_string(),
        tool_name: tool_name.to_string(),
        tool_args,
    }
}

/// The proposal for a PreToolUse hook invocation, an `Edit`'s file read as `file`.
fn claude_proposal(input: &claude_code::HookInput, file: Result<&str, &str>) -> Result<Option<Proposal>, String> {
    match claude_code::plan_proposal(input)? {
        claude_code::ProposalPlan::Ready(p) => Ok(p),
        claude_code::ProposalPlan::ReadForEdit(request) => {
            claude_code::complete_edit(&request, file.map(str::to_string).map_err(str::to_string)).map(Some)
        }
    }
}

/// The proposal for a Pi tool call, an `edit`'s file read as `file`.
fn pi_proposal(tool_name: &str, input: &JsonValue, file: Result<&str, &str>) -> Result<Option<Proposal>, String> {
    match pi::plan_proposal(tool_name, input)? {
        pi::ProposalPlan::Ready(p) => Ok(p),
        pi::ProposalPlan::ReadForEdit(request) => {
            pi::complete_edit(&request, file.map(str::to_string).map_err(str::to_string)).map(Some)
        }
    }
}

#[test]
fn bash_tool_input_becomes_shell_command_proposal() {
    let input = claude_input("Bash", json(r#"{ "command": "echo hello" }"#));
    let proposal = claude_proposal(&input, Err("unused")).unwrap();
    assert!(matches!(proposal, Some(Proposal::ShellCommand { command }) if command == "echo hello"));
}

#[test]
fn write_tool_input_becomes_file_write_proposal() {
    let input = claude_input("Write", json(r#"{ "file_path": "/workspace/out.txt", "content": "hi" }"#));
    let proposal = claude_proposal(&input, Err("unused")).unwrap();
    match proposal {
        Some(Proposal::FileWrite { path, content }) => {
            assert_eq!(path, "/workspace/out.txt");
            assert_eq!(content, "hi");
        }
        other => panic!("expected FileWrite, got {other:?}"),
    }
}

#[test]
fn hook_io_bash_missing_command_field_errors_instead_of_guessing() {
    let claude = claude_input("Bash", json("{}"));
    assert_eq!(
        claude_proposal(&claude, Err("unused")),
        Err("Bash tool_input missing string field 'command'".to_string())
    );
    let copilot = copilot_input("bash", json("{}"));
    assert!(copilot_cli::to_proposal(&copilot).is_err());
    assert!(pi_proposal("bash", &json("{}"), Err("unused")).is_err());
}

#[test]
fn edit_tool_input_reconstructs_full_resulting_content() {
    let input = claude_input(
        "Edit",
        json(r#"{ "file_path": "/tmp/t/out.txt", "old_string": "world", "new_string": "there" }"#),
    );
    let proposal = claude_proposal(&input, Ok("hello world")).unwrap();
    match proposal {
        Some(Proposal::FileWrite { path, content }) => {
            assert_eq!(path, "/tmp/t/out.txt");
            assert_eq!(content, "hello there");
        }
        other => panic!("expected FileWrite, got {other:?}"),
    }
}

#[test]
fn edit_with_replace_all_replaces_every_occurrence() {
    let input = claude_input(
        "Edit",
        json(r#"{ "file_path": "/tmp/t/out.txt", "old_string": "a", "new_string": "b", "replace_all": true }"#),
    );
    match claude_proposal(&input, Ok("a a a")).unwrap() {
        Some(Proposal::FileWrite { content, .. }) => assert_eq!(content, "b b b"),
        other => panic!("expected FileWrite, got {other:?}"),
    }
}

#[test]
fn edit_with_non_unique_old_string_and_no_replace_all_errors_instead_of_guessing() {
    let input = claude_input("Edit", json(r#"{ "file_path": "/tmp/t/out.txt", "old_string": "a", "new_string": "b" }"#));
    assert_eq!(
        claude_proposal(&input, Ok("a a")),
        Err("old_string appears 2 times in the file; ambiguous without replace_all".to_string())
    );
}

#[test]
fn edit_missing_old_string_field_errors_instead_of_guessing() {
    let input = claude_input("Edit", json(r#"{ "file_path": "/workspace/out.txt", "new_string": "b" }"#));
    assert_eq!(
        claude_proposal(&input, Ok("unused")),
        Err("Edit tool_input missing string field 'old_string'".to_string())
    );
}

#[test]
fn edit_of_an_unreadable_file_names_the_file_and_the_read_error() {
    let input = claude_input("Edit", json(r#"{ "file_path": "/nope/out.txt", "old_string": "a", "new_string": "b" }"#));
    assert_eq!(
        claude_proposal(&input, Err("No such file or directory (os error 2)")),
        Err("failed to read '/nope/out.txt' to reconstruct the Edit proposal: No such file or directory (os error 2)"
            .to_string())
    );
    assert_eq!(claude_proposal(&input, Ok("xyz")), Err("old_string not found in file".to_string()));
}

#[test]
fn to_proposal_is_reexported_for_callers_that_only_need_translation() {
    let input = claude_input("Bash", json(r#"{ "command": "echo hi" }"#));
    assert!(matches!(claude_proposal(&input, Err("unused")).unwrap(), Some(Proposal::ShellCommand { .. })));
}

#[test]
fn ungated_claude_tool_passes_through_as_allow_with_its_subject() {
    let input = claude_input("Read", json(r#"{ "file_path": "out.txt" }"#));
    assert_eq!(claude_proposal(&input, Err("unused")), Ok(None));
    let output = claude_code::ungated_output("Read");
    assert!(!output.is_deny());
    assert_eq!(output.exit_code(), 0);
    assert_eq!(output, claude_code::HookOutput::allow("'Read' is not yet gated by adapter-cc"));
    assert_eq!(claude_code::ungated_subject_id("toolu_test", 5), "toolu_test");
    assert_eq!(claude_code::ungated_subject_id("", -42), "ungated--42");
    assert_eq!(
        claude_code::verdict_detail("Read", &output),
        "PreToolUse hook for tool 'Read': allow ('Read' is not yet gated by adapter-cc)"
    );
}

#[test]
fn claude_output_relays_the_decision_verbatim() {
    assert_eq!(
        claude_code::output_for(&CapabilityDecision::Granted),
        claude_code::HookOutput::allow("gate-pipeline granted this proposal")
    );
    let denied = claude_code::output_for(&CapabilityDecision::Denied { reason: "nope".to_string() });
    assert!(denied.is_deny());
    assert_eq!(denied.exit_code(), 2);
    assert_eq!(denied.hook_specific_output.hook_event_name, "PreToolUse");
    assert_eq!(denied.hook_specific_output.permission_decision_reason, "nope");
}

#[test]
fn bash_with_native_object_tool_args_becomes_shell_command_proposal() {
    let input = copilot_input("bash", json(r#"{ "command": "echo hello" }"#));
    let proposal = copilot_cli::to_proposal(&input).unwrap();
    assert!(matches!(proposal, Some(Proposal::ShellCommand { command }) if command == "echo hello"));
}

#[test]
fn bash_with_string_encoded_tool_args_becomes_shell_command_proposal() {
    let input = copilot_input("bash", JsonValue::Str(r#"{"command":"ls"}"#.to_string()));
    let proposal = copilot_cli::to_proposal(&input).unwrap();
    assert!(matches!(proposal, Some(Proposal::ShellCommand { command }) if command == "ls"));
}

#[test]
fn create_tool_is_not_gated_in_this_v1() {
    let input = copilot_input("create", json(r#"{ "path": "/workspace/out.txt" }"#));
    let proposal = copilot_cli::to_proposal(&input).unwrap();
    assert!(proposal.is_none());
}

#[test]
fn copilot_tool_args_of_the_wrong_shape_are_errors() {
    let not_json = copilot_input("bash", JsonValue::Str("{not json".to_string()));
    let err = copilot_cli::to_proposal(&not_json).unwrap_err();
    assert!(err.starts_with("toolArgs string did not contain valid JSON: "), "got: {err}");
    let number = copilot_input("bash", JsonValue::Bool(true));
    assert_eq!(
        copilot_cli::to_proposal(&number),
        Err("toolArgs was neither an object nor a string: Bool(true)".to_string())
    );
}

#[test]
fn copilot_output_and_ungated_subjects() {
    let granted = copilot_cli::output_for(&CapabilityDecision::Granted);
    assert_eq!(granted, copilot_cli::HookOutput::allow("gate-pipeline granted this proposal"));
    let denied = copilot_cli::output_for(&CapabilityDecision::Denied { reason: "no".to_string() });
    assert!(denied.is_deny());
    assert_eq!(denied.exit_code(), 2);
    assert_eq!(
        copilot_cli::ungated_output("create"),
        copilot_cli::HookOutput::allow("'create' is not yet gated by adapter-copilot-cli")
    );
    assert_eq!(copilot_cli::ungated_subject_id("s1", 1704614400000, 7), "s1-1704614400000");
    assert_eq!(copilot_cli::ungated_subject_id("", 1704614400000, 7), "ungated-7");
}

#[test]
fn bash_input_becomes_shell_command_proposal() {
    let proposal = pi_proposal("bash", &json(r#"{ "command": "echo hello" }"#), Err("unused")).unwrap();
    assert!(matches!(proposal, Some(Proposal::ShellCommand { command }) if command == "echo hello"));
}

#[test]
fn write_input_becomes_file_write_proposal() {
    let proposal =
        pi_proposal("write", &json(r#"{ "path": "/workspace/out.txt", "content": "hi" }"#), Err("unused")).unwrap();
    match proposal {
        Some(Proposal::FileWrite { path, content }) => {
            assert_eq!(path, "/workspace/out.txt");
            assert_eq!(content, "hi");
        }
        other => panic!("expected FileWrite, got {other:?}"),
    }
}

#[test]
fn edit_input_reconstructs_full_resulting_content() {
    let input = json(r#"{ "path": "/tmp/t/out.txt", "edits": [{ "oldText": "world", "newText": "there" }] }"#);
    match pi_proposal("edit", &input, Ok("hello world")).unwrap() {
        Some(Proposal::FileWrite { path, content }) => {
            assert_eq!(path, "/tmp/t/out.txt");
            assert_eq!(content, "hello there");
        }
        other => panic!("expected FileWrite, got {other:?}"),
    }
}

#[test]
fn edit_applies_multiple_non_overlapping_edits_against_the_original() {
    let input = json(
        r#"{ "path": "/tmp/t/out.txt", "edits": [
            { "oldText": "one", "newText": "1" },
            { "oldText": "three", "newText": "3" }
        ] }"#,
    );
    match pi_proposal("edit", &input, Ok("one two three")).unwrap() {
        Some(Proposal::FileWrite { content, .. }) => assert_eq!(content, "1 two 3"),
        other => panic!("expected FileWrite, got {other:?}"),
    }
}

#[test]
fn edits_listed_out_of_order_still_apply_against_the_original() {
    let input = json(
        r#"{ "path": "p", "edits": [
            { "oldText": "three", "newText": "one" },
            { "oldText": "one", "newText": "three" }
        ] }"#,
    );
    match pi_proposal("edit", &input, Ok("one two three")).unwrap() {
        Some(Proposal::FileWrite { content, .. }) => assert_eq!(content, "three two one"),
        other => panic!("expected FileWrite, got {other:?}"),
    }
}

#[test]
fn edit_with_non_unique_old_text_errors_instead_of_guessing() {
    let input = json(r#"{ "path": "/tmp/t/out.txt", "edits": [{ "oldText": "a", "newText": "b" }] }"#);
    assert!(pi_proposal("edit", &input, Ok("a a")).is_err());
}

#[test]
fn overlapping_pi_edits_are_refused() {
    let input = json(
        r#"{ "path": "p", "edits": [
            { "oldText": "one two", "newText": "x" },
            { "oldText": "two three", "newText": "y" }
        ] }"#,
    );
    assert!(pi_proposal("edit", &input, Ok("one two three")).is_err());
    let empty = json(r#"{ "path": "p", "edits": [] }"#);
    assert_eq!(
        pi_proposal("edit", &empty, Ok("unchanged")),
        Ok(Some(Proposal::FileWrite { path: "p".to_string(), content: "unchanged".to_string() }))
    );
}

#[test]
fn edit_missing_edits_field_errors_instead_of_guessing() {
    let input = json(r#"{ "path": "/workspace/out.txt" }"#);
    assert_eq!(
        pi_proposal("edit", &input, Ok("unused")),
        Err("edit input missing array field 'edits'".to_string())
    );
}

#[test]
fn pi_decisions_relay_and_pass_through() {
    assert_eq!(
        pi::decision_for(&CapabilityDecision::Granted),
        pi::BridgeDecision::granted("gate-pipeline granted this proposal")
    );
    assert_eq!(
        pi::decision_for(&CapabilityDecision::Denied { reason: "no".to_string() }),
        pi::BridgeDecision { granted: false, reason: "no".to_string() }
    );
    let ungated = pi::ungated_decision("view");
    assert!(ungated.granted);
    assert!(ungated.reason.contains("not yet gated"));
    assert_eq!(pi::ungated_subject_id(12), "ungated-12");
    assert_eq!(pi::verdict_detail("view", &ungated), "tool_call for tool 'view': granted=true ('view' is not yet gated by adapter-pi)");
    assert_eq!(pi_proposal("view", &json(r#"{ "path": "out.txt" }"#), Err("unused")), Ok(None));
}

#[test]
fn adapters_agree_on_every_decision() {
    for decision in [CapabilityDecision::Granted, CapabilityDecision::Denied { reason: "r".to_string() }] {
        let claude = claude_code::output_for(&decision);
        let copilot = copilot_cli::output_for(&decision);
        let pi = pi::decision_for(&decision);
        assert_eq!(claude.is_deny(), !pi.granted);
        assert_eq!(copilot.is_deny(), !pi.granted);
        assert_eq!(claude.hook_specific_output.permission_decision_reason, pi.reason);
        assert_eq!(copilot.permission_decision_reason, pi.reason);
    }
}

#[test]
fn json_debug_text_matches_serde_json() {
    assert_eq!(json_debug_text(&JsonValue::Null), "Null");
    assert_eq!(json_debug_text(&JsonValue::Str("a".to_string())), "String(\"a\")");
}

#[test]
fn copilot_args_as_object_or_as_json_text_translate_alike() {
    let object = copilot_input("bash", json(r#"{"command":"ls -la"}"#));
    let text = copilot_input("bash", JsonValue::Str(r#"{"command":"ls -la"}"#.to_string()));
    assert_eq!(copilot_cli::to_proposal(&object), copilot_cli::to_proposal(&text));
}

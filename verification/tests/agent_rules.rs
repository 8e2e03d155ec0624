use vertex_ai::agent::{action_candidate, braced_candidate, braces_in_order};
use vertex_ai::agent::validate_tool_permission;
use vertex_ai::developer::{DeveloperMode, ToolCall};

#[test]
fn mode_permissions_are_enforced() {
    let read = ToolCall::ReadFile {
        path: "x".to_owned(),
    };
    let edit = ToolCall::CreateFile {
        path: "x".to_owned(),
        content: "x".to_owned(),
        reason: "test".to_owned(),
    };
    assert!(validate_tool_permission(DeveloperMode::ReadOnly, &read).is_ok());
    assert!(validate_tool_permission(DeveloperMode::ReadOnly, &edit).is_err());
    assert!(validate_tool_permission(DeveloperMode::Edit, &edit).is_ok());
}

#[test]
fn ask_mode_allows_no_tool_and_names_the_refusal() {
    let read = ToolCall::ReadFile {
        path: "x".to_owned(),
    };
    let message = validate_tool_permission(DeveloperMode::Ask, &read).unwrap_err();
    assert_eq!(message, "read_file is not allowed in Ask mode");
}

#[test]
fn a_fenced_model_action_is_taken_from_inside_the_fence() {
    let reply = "```json\n        {\"action\":\"complete\",\"summary\":\"done\",\"confidence\":0.9,\"reason\":\"verified\"}\n        ```";
    assert_eq!(
        action_candidate(reply),
        "{\"action\":\"complete\",\"summary\":\"done\",\"confidence\":0.9,\"reason\":\"verified\"}"
    );
    let review = "{\"approved\":false,\"issues\":[\"missing test\"],\"severity\":\"HIGH\",\"required_changes\":[\"add test\"],\"reason\":\"evidence absent\"}";
    assert!(braces_in_order(review));
    assert_eq!(braced_candidate(review), review);
    assert!(braces_in_order("looks good"));
    assert_eq!(braced_candidate("looks good"), "looks good");
}

#[test]
fn json_model_actions_are_strictly_parsed() {
    let reply = r#"```json
        {"action":"complete","summary":"done","confidence":0.9,"reason":"verified"}
        ```"#;
    let action: serde_json::Value = serde_json::from_str(&vertex_ai::agent::action_candidate(reply)).unwrap();
    assert_eq!(action["action"], "complete");
}

#[test]
fn reviewer_schema_is_strictly_typed() {
    let summary = r#"{"approved":false,"issues":["missing test"],"severity":"HIGH","required_changes":["add test"],"reason":"evidence absent"}"#;
    let review: serde_json::Value = serde_json::from_str(&vertex_ai::agent::braced_candidate(summary)).unwrap();
    assert_eq!(review["approved"], false);
    assert_eq!(review["required_changes"], serde_json::Value::Array(vec![serde_json::Value::String("add test".to_owned())]));
    assert!(serde_json::from_str::<serde_json::Value>(&vertex_ai::agent::braced_candidate("looks good")).is_err());
}

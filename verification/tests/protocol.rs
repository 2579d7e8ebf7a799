use ryu_expenses::mcp::{
    classify_method, classify_tool, frame_text, required_id, tool_for, unknown_method_message,
    McpError, RpcMethod, ToolName,
};
use ryu_expenses::state::{bearer_of, Config, DEFAULT_PORT, PLUGIN_ID};

#[test]
fn methods_and_tools_are_recognized_by_name() {
    assert_eq!(classify_method("initialize"), RpcMethod::Initialize);
    assert_eq!(classify_method("ping"), RpcMethod::Ping);
    assert_eq!(classify_method("tools/list"), RpcMethod::ToolsList);
    assert_eq!(classify_method("tools/call"), RpcMethod::ToolsCall);
    assert_eq!(classify_method("tools/ping"), RpcMethod::Unknown);
    assert_eq!(classify_tool("delete"), Some(ToolName::Delete));
    assert_eq!(classify_tool("expenses.delete"), None);
    assert_eq!(unknown_method_message("foo"), "unknown method 'foo'");
    let err = tool_for("drop").unwrap_err();
    assert_eq!(err.message(), "unknown tool 'drop'");
}

#[test]
fn frames_and_ids() {
    assert_eq!(frame_text("  {\"id\":1}\n"), Some("{\"id\":1}"));
    assert_eq!(frame_text(" \t "), None);
    assert_eq!(required_id(Some(" abc")).unwrap(), " abc");
    assert!(matches!(required_id(Some("  ")), Err(McpError::IdRequired)));
    assert!(matches!(required_id(None), Err(McpError::IdRequired)));
    assert_eq!(McpError::PatchRequired.message(), "patch is required");
}

#[test]
fn bearer_tokens_follow_the_prefix() {
    assert_eq!(bearer_of(Some("Bearer secret")), Some("secret".to_owned()));
    assert_eq!(bearer_of(Some("bearer secret")), None);
    assert_eq!(bearer_of(Some("Bearer")), None);
    assert_eq!(bearer_of(Some("Bearer ")), Some("".to_owned()));
    assert_eq!(bearer_of(None), None);
}

#[test]
fn configured_tokens_are_trimmed_or_absent() {
    let c = Config::from_token(DEFAULT_PORT, Some("  tok ".to_owned()));
    assert_eq!(c.port, 8017);
    assert_eq!(c.token, Some("tok".to_owned()));
    assert_eq!(Config::from_token(1, Some(" ".to_owned())).token, None);
    assert_eq!(Config::from_token(1, None).token, None);
    assert_eq!(PLUGIN_ID, "@ryu/expenses");
}

#[test]
fn tool_failures_have_their_messages() {
    assert_eq!(McpError::IdRequired.message(), "id is required");
    assert_eq!(McpError::InvalidAddInput.message(), "invalid add input");
    assert_eq!(McpError::InvalidUpdateInput.message(), "invalid update input");
    assert_eq!(McpError::InvalidFilters.message(), "invalid expense filters");
    assert_eq!(
        McpError::Store(ryu_expenses::store::StoreError::NotFound).message(),
        "expense not found"
    );
    assert_eq!(
        McpError::Store(ryu_expenses::store::StoreError::Invalid(
            ryu_expenses::validation::ValidationError::EmptyPatch
        ))
        .message(),
        "at least one expense field is required"
    );
}

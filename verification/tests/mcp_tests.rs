use open_editor_lib::mcp::{arg, initialize_answer, route_rpc, rpc_error, RpcAction};

fn s(x: &str) -> String {
    x.to_string()
}

#[test]
fn initialize_identifies_the_route() {
    assert_eq!(route_rpc(true, &s("initialize"), &s("")), Some(RpcAction::Initialize));
    assert_eq!(route_rpc(true, &s("tools/list"), &s("")), Some(RpcAction::ListTools));
    assert_eq!(route_rpc(true, &s("tools/call"), &s("editor_get_project")), Some(RpcAction::ReadProject));
    assert_eq!(route_rpc(true, &s("tools/call"), &s("editor_apply_command")), Some(RpcAction::ApplyCommand));
    assert_eq!(route_rpc(true, &s("tools/call"), &s("rm_rf")), Some(RpcAction::UnknownTool));
    assert_eq!(route_rpc(true, &s("ping"), &s("")), Some(RpcAction::Ping));
    assert_eq!(route_rpc(true, &s("shutdown"), &s("")), Some(RpcAction::MethodNotFound));
    assert_eq!(route_rpc(false, &s("initialize"), &s("")), None);
}

#[test]
fn command_line_flags() {
    let args = vec![s("open-editor-mcp"), s("--socket"), s("/tmp/x.sock"), s("--token")];
    assert_eq!(arg(&args, "--socket"), Ok(s("/tmp/x.sock")));
    assert_eq!(arg(&args, "--token"), Err(s("--token requires a value")));
    assert_eq!(arg(&args, "--project"), Err(s("missing --project")));
}

#[test]
fn unknown_methods_and_tools_get_their_json_rpc_errors() {
    assert_eq!(rpc_error(RpcAction::MethodNotFound), Some((-32601, s("method not found"))));
    assert_eq!(rpc_error(RpcAction::UnknownTool), Some((-32602, s("unknown tool"))));
    assert_eq!(rpc_error(RpcAction::Initialize), None);
    assert_eq!(rpc_error(RpcAction::Ping), None);
    assert_eq!(rpc_error(RpcAction::ReadProject), None);
    let action = route_rpc(true, &s("tools/call"), &s("delete_everything")).unwrap();
    assert_eq!(rpc_error(action).map(|(code, _)| code), Some(-32602));
}

#[test]
fn initialize_identifies_open_editor() {
    assert_eq!(route_rpc(true, &s("initialize"), &s("")), Some(RpcAction::Initialize));
    let (version, name) = initialize_answer(Some(s("2025-06-18")));
    assert_eq!(name, "open-editor");
    assert_eq!(version, "2025-06-18");
    assert_eq!(initialize_answer(Some(s("2024-11-05"))).0, "2024-11-05");
    assert_eq!(initialize_answer(None), (s("2025-06-18"), s("open-editor")));
}

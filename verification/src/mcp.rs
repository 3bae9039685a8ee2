use vstd::prelude::*;
use vstd::string::*;

use crate::text::text_eq;

verus! {

/// What the tool server does with a JSON-RPC request.
#[derive(Clone, Copy, Debug, PartialEq, Eq, Structural)]
pub enum RpcAction {
    /// Identify the server and its capabilities.
    Initialize,
    /// List the two tools.
    ListTools,
    /// Call the tool that reads a project snapshot.
    ReadProject,
    /// Call the tool that applies one validated command.
    ApplyCommand,
    /// Answer that the tool is unknown.
    UnknownTool,
    /// Answer an empty result.
    Ping,
    /// Answer that the method is not found.
    MethodNotFound,
}

/// The tool that reads a project snapshot.
pub open spec fn read_tool() -> Seq<char> {
    "editor_get_project"@
}

/// The tool that applies a command.
pub open spec fn apply_tool() -> Seq<char> {
    "editor_apply_command"@
}

/// How a request is handled; a notification (no id) gets no answer. Only
/// the two tools can be called.
pub open spec fn rpc_route(has_id: bool, method: Seq<char>, tool: Seq<char>) -> Option<RpcAction> {
    if !has_id {
        None
    } else if method == "initialize"@ {
        Some(RpcAction::Initialize)
    } else if method == "tools/list"@ {
        Some(RpcAction::ListTools)
    } else if method == "tools/call"@ {
        if tool == read_tool() {
            Some(RpcAction::ReadProject)
        } else if tool == apply_tool() {
            Some(RpcAction::ApplyCommand)
        } else {
            Some(RpcAction::UnknownTool)
        }
    } else if method == "ping"@ {
        Some(RpcAction::Ping)
    } else {
        Some(RpcAction::MethodNotFound)
    }
}

/// Decides how to handle a request; see `rpc_route`.
pub fn route_rpc(has_id: bool, method: &String, tool: &String) -> (r: Option<RpcAction>)
    ensures
        r == rpc_route(has_id, method@, tool@),
{
    if !has_id {
        return None;
    }
    if text_eq(method, "initialize") {
        return Some(RpcAction::Initialize);
    }
    if text_eq(method, "tools/list") {
        return Some(RpcAction::ListTools);
    }
    if text_eq(method, "tools/call") {
        if text_eq(tool, "editor_get_project") {
            return Some(RpcAction::ReadProject);
        }
        if text_eq(tool, "editor_apply_command") {
            return Some(RpcAction::ApplyCommand);
        }
        return Some(RpcAction::UnknownTool);
    }
    if text_eq(method, "ping") {
        return Some(RpcAction::Ping);
    }
    Some(RpcAction::MethodNotFound)
}

/// What the server answers `initialize` with: the protocol version the
/// client asked for (`2025-06-18` when it names none) and the server's name.
pub open spec fn initialize_info(requested: Option<Seq<char>>) -> (Seq<char>, Seq<char>) {
    (
        match requested {
            Some(v) => v,
            None => "2025-06-18"@,
        },
        "open-editor"@,
    )
}

/// The protocol version and server name of an `initialize` answer; see
/// `initialize_info`.
pub fn initialize_answer(requested: Option<String>) -> (r: (String, String))
    ensures
        (r.0@, r.1@) == initialize_info(match requested {
            Some(v) => Some(v@),
            None => None,
        }),
{
    let version = match requested {
        Some(v) => v,
        None => String::from_str("2025-06-18"),
    };
    (version, String::from_str("open-editor"))
}

pub open spec fn texts(v: Seq<String>) -> Seq<Seq<char>> {
    v.map_values(|s: String| s@)
}

/// The value following the first occurrence of a flag among the arguments.
pub open spec fn arg_lookup(args: Seq<Seq<char>>, name: Seq<char>) -> Result<Seq<char>, Seq<char>>
    decreases args.len(),
{
    if args.len() == 0 {
        Err("missing "@ + name)
    } else if args[0] == name {
        if args.len() >= 2 {
            Ok(args[1])
        } else {
            Err(name + " requires a value"@)
        }
    } else {
        arg_lookup(args.drop_first(), name)
    }
}

pub open spec fn text_result(r: Result<String, String>) -> Result<Seq<char>, Seq<char>> {
    match r {
        Ok(s) => Ok(s@),
        Err(s) => Err(s@),
    }
}

/// Finds the value of a command-line flag; see `arg_lookup`.
pub fn arg(args: &Vec<String>, name: &str) -> (r: Result<String, String>)
    ensures
        text_result(r) == arg_lookup(texts(args@), name@),
{
    let ghost all = texts(args@);
    let name_text = String::from_str(name);
    let mut i: usize = 0;
    assert(all.skip(0) =~= all);
    while i < args.len()
        invariant
            0 <= i <= args.len(),
            all == texts(args@),
            name_text@ == name@,
            arg_lookup(all, name@) == arg_lookup(all.skip(i as int), name@),
        decreases args.len() - i,
    {
        let ghost rest = all.skip(i as int);
        assert(rest[0] == args@[i as int]@);
        assert(rest.drop_first() =~= all.skip(i + 1));
        if args[i] == name_text {
            if i + 1 < args.len() {
                assert(rest[1] == args@[i + 1]@);
                return Ok(args[i + 1].clone());
            }
            let mut m = String::from_str(name);
            m.append(" requires a value");
            return Err(m);
        }
        i += 1;
    }
    assert(all.skip(i as int) =~= Seq::<Seq<char>>::empty());
    let mut m = String::from_str("missing ");
    m.append(name);
    Err(m)
}

/// The JSON-RPC error a request is answered with, if any: an unknown method
/// gets `-32601` "method not found", an unknown tool `-32602` "unknown tool";
/// every other action is answered with a result.
pub open spec fn rpc_error_of(a: RpcAction) -> Option<(int, Seq<char>)> {
    match a {
        RpcAction::MethodNotFound => Some((-32601, "method not found"@)),
        RpcAction::UnknownTool => Some((-32602, "unknown tool"@)),
        _ => None,
    }
}

/// The error code and message for an action; see `rpc_error_of`.
pub fn rpc_error(a: RpcAction) -> (r: Option<(i64, String)>)
    ensures
        match (r, rpc_error_of(a)) {
            (Some((c, m)), Some((sc, sm))) => c == sc && m@ == sm,
            (None, None) => true,
            _ => false,
        },
{
    match a {
        RpcAction::MethodNotFound => Some((-32601, String::from_str("method not found"))),
        RpcAction::UnknownTool => Some((-32602, String::from_str("unknown tool"))),
        _ => None,
    }
}

/// Only a request with an identifier is answered; an unknown method and an
/// unknown tool are answered with their errors, and only the two tools
/// reach the editor.
pub proof fn lemma_rpc_answers(has_id: bool, method: Seq<char>, tool: Seq<char>)
    ensures
        !has_id ==> rpc_route(has_id, method, tool) is None,
        has_id && method != "initialize"@ && method != "tools/list"@ && method != "tools/call"@ && method != "ping"@
            ==> rpc_route(has_id, method, tool) == Some(RpcAction::MethodNotFound)
                && rpc_error_of(RpcAction::MethodNotFound) == Some((-32601int, "method not found"@)),
        has_id && method == "tools/call"@ && tool != read_tool() && tool != apply_tool()
            ==> rpc_route(has_id, method, tool) == Some(RpcAction::UnknownTool)
                && rpc_error_of(RpcAction::UnknownTool) == Some((-32602int, "unknown tool"@)),
        rpc_route(has_id, method, tool) matches Some(a) && (a is ReadProject || a is ApplyCommand)
            ==> method == "tools/call"@ && (tool == read_tool() || tool == apply_tool()),
{
    reveal_strlit("initialize");
    reveal_strlit("tools/list");
    reveal_strlit("tools/call");
    assert("tools/call"@[0] != "initialize"@[0]);
    assert("tools/call"@[6] != "tools/list"@[6]);
}

} // verus!

//! The decisions of the command line and of the JSON-RPC tool server:
//! which mode runs, how requests and tool calls are routed, argument
//! defaults, messages, and the text patches applied at installation.
use vstd::prelude::*;

use crate::lexicon::strs_view;
use crate::text::{
    append_str, chars_eq, chars_of, matches_at, matches_at_exec, replace_all, replace_all_exec,
    string_of, trim_exec, trim_ws, TrimKind,
};

verus! {

/// What the program does for its command-line arguments.
#[derive(Clone, Debug)]
pub enum CliMode {
    Install,
    Uninstall,
    /// Export to the given file.
    Export(String),
    /// Import from the given file, when one was named.
    Import(Option<String>),
    Hook,
    Help,
    Mcp,
    /// An unknown command typed at a terminal: report it and show help.
    UnknownCommand(String),
    /// An unknown argument with input from a program: warn and serve MCP.
    UnknownFallback(String),
}

/// The mode for a command word.
pub open spec fn mode_word(cmd: Seq<char>) -> Option<u8> {
    if cmd == "install"@ || cmd == "--install"@ {
        Some(0)
    } else if cmd == "uninstall"@ || cmd == "--uninstall"@ {
        Some(1)
    } else if cmd == "export"@ || cmd == "--export"@ {
        Some(2)
    } else if cmd == "import"@ || cmd == "--import"@ {
        Some(3)
    } else if cmd == "hook"@ || cmd == "--hook"@ {
        Some(4)
    } else if cmd == "help"@ || cmd == "--help"@ || cmd == "-h"@ {
        Some(5)
    } else if cmd == "mcp"@ || cmd == "--mcp"@ || cmd == "stdio"@ || cmd == "--stdio"@ || cmd
        == "-m"@ {
        Some(6)
    } else {
        None
    }
}

fn is_one_of(s: &Vec<char>, words: Vec<&str>) -> (r: bool)
    ensures
        r == strs_view(words@).contains(s@),
{
    let mut i: usize = 0;
    while i < words.len()
        invariant
            i <= words.len(),
            forall|k: int| 0 <= k < i ==> strs_view(words@)[k] != s@,
        decreases words.len() - i,
    {
        let w = chars_of(words[i]);
        assert(strs_view(words@)[i as int] == w@);
        if chars_eq(&w, s) {
            return true;
        }
        i = i + 1;
    }
    false
}

/// The default file of an export.
pub open spec fn default_backup_file() -> Seq<char> {
    "memory-backup.json"@
}

/// Decides the mode from the first two arguments and whether input comes
/// from a terminal: a known command word picks its mode (an export's file
/// defaults to `memory-backup.json`); no command shows help at a terminal
/// and serves MCP otherwise; an unknown command is reported at a terminal
/// and falls back to MCP otherwise.
pub fn cli_mode(arg1: Option<&str>, arg2: Option<&str>, stdin_is_terminal: bool) -> (r: CliMode)
    ensures
        match arg1 {
            None => if stdin_is_terminal {
                r is Help
            } else {
                r is Mcp
            },
            Some(cmd) => match mode_word(cmd@) {
                Some(0) => r is Install,
                Some(1) => r is Uninstall,
                Some(2) => r matches CliMode::Export(f) && f@ == match arg2 {
                    Some(a) => a@,
                    None => default_backup_file(),
                },
                Some(3) => r matches CliMode::Import(f) && match (f, arg2) {
                    (Some(x), Some(a)) => x@ == a@,
                    (None, None) => true,
                    _ => false,
                },
                Some(4) => r is Hook,
                Some(5) => r is Help,
                Some(6) => r is Mcp,
                _ => if stdin_is_terminal {
                    r matches CliMode::UnknownCommand(c) && c@ == cmd@
                } else {
                    r matches CliMode::UnknownFallback(c) && c@ == cmd@
                },
            },
        },
{
    match arg1 {
        None => {
            if stdin_is_terminal {
                CliMode::Help
            } else {
                CliMode::Mcp
            }
        },
        Some(cmd) => {
            let c = chars_of(cmd);
            let w0 = vec!["install", "--install"];
            let w1 = vec!["uninstall", "--uninstall"];
            let w2 = vec!["export", "--export"];
            let w3 = vec!["import", "--import"];
            let w4 = vec!["hook", "--hook"];
            let w5 = vec!["help", "--help", "-h"];
            let w6 = vec!["mcp", "--mcp", "stdio", "--stdio", "-m"];
            assert(strs_view(w0@) =~= seq!["install"@, "--install"@]);
            assert(strs_view(w1@) =~= seq!["uninstall"@, "--uninstall"@]);
            assert(strs_view(w2@) =~= seq!["export"@, "--export"@]);
            assert(strs_view(w3@) =~= seq!["import"@, "--import"@]);
            assert(strs_view(w4@) =~= seq!["hook"@, "--hook"@]);
            assert(strs_view(w5@) =~= seq!["help"@, "--help"@, "-h"@]);
            assert(strs_view(w6@) =~= seq!["mcp"@, "--mcp"@, "stdio"@, "--stdio"@, "-m"@]);
            if is_one_of(&c, w0) {
                assert(c@ == "install"@ || c@ == "--install"@);
                return CliMode::Install;
            }
            if is_one_of(&c, w1) {
                assert(c@ == "uninstall"@ || c@ == "--uninstall"@);
                return CliMode::Uninstall;
            }
            if is_one_of(&c, w2) {
                assert(c@ == "export"@ || c@ == "--export"@);
                let f = match arg2 {
                    Some(a) => a.to_string(),
                    None => "memory-backup.json".to_string(),
                };
                return CliMode::Export(f);
            }
            if is_one_of(&c, w3) {
                assert(c@ == "import"@ || c@ == "--import"@);
                let f = match arg2 {
                    Some(a) => Some(a.to_string()),
                    None => None,
                };
                return CliMode::Import(f);
            }
            if is_one_of(&c, w4) {
                assert(c@ == "hook"@ || c@ == "--hook"@);
                return CliMode::Hook;
            }
            if is_one_of(&c, w5) {
                assert(c@ == "help"@ || c@ == "--help"@ || c@ == "-h"@);
                return CliMode::Help;
            }
            if is_one_of(&c, w6) {
                assert(c@ == "mcp"@ || c@ == "--mcp"@ || c@ == "stdio"@ || c@ == "--stdio"@ || c@
                    == "-m"@);
                return CliMode::Mcp;
            }
            if stdin_is_terminal {
                CliMode::UnknownCommand(cmd.to_string())
            } else {
                CliMode::UnknownFallback(cmd.to_string())
            }
        },
    }
}

/// How the server answers a JSON-RPC method.
#[derive(Clone, Copy, Debug, PartialEq, Eq, Structural)]
pub enum RpcRoute {
    /// A notification: no answer.
    Ignore,
    Initialize,
    Ping,
    ListTools,
    CallTool,
    /// Answer with error -32601.
    MethodNotFound,
}

/// Routes a JSON-RPC method: methods under `notifications/` get no answer;
/// `initialize`, `ping`, `tools/list` and `tools/call` are served; any
/// other method is not found.
pub fn route_request(method: &str) -> (r: RpcRoute)
    ensures
        matches_at(method@, "notifications/"@, 0) ==> r is Ignore,
        !matches_at(method@, "notifications/"@, 0) ==> if method@ == "initialize"@ {
            r is Initialize
        } else if method@ == "ping"@ {
            r is Ping
        } else if method@ == "tools/list"@ {
            r is ListTools
        } else if method@ == "tools/call"@ {
            r is CallTool
        } else {
            r is MethodNotFound
        },
{
    let m = chars_of(method);
    let prefix = chars_of("notifications/");
    if matches_at_exec(&m, &prefix, 0) {
        return RpcRoute::Ignore;
    }
    let w0 = vec!["initialize"];
    let w1 = vec!["ping"];
    let w2 = vec!["tools/list"];
    let w3 = vec!["tools/call"];
    assert(strs_view(w0@) =~= seq!["initialize"@]);
    assert(strs_view(w1@) =~= seq!["ping"@]);
    assert(strs_view(w2@) =~= seq!["tools/list"@]);
    assert(strs_view(w3@) =~= seq!["tools/call"@]);
    if is_one_of(&m, w0) {
        assert(m@ == "initialize"@);
        return RpcRoute::Initialize;
    }
    if is_one_of(&m, w1) {
        assert(m@ == "ping"@);
        return RpcRoute::Ping;
    }
    if is_one_of(&m, w2) {
        assert(m@ == "tools/list"@);
        return RpcRoute::ListTools;
    }
    if is_one_of(&m, w3) {
        assert(m@ == "tools/call"@);
        return RpcRoute::CallTool;
    }
    assert(!seq!["initialize"@].contains(m@));
    assert(seq!["initialize"@][0] == "initialize"@);
    assert(seq!["ping"@][0] == "ping"@);
    assert(seq!["tools/list"@][0] == "tools/list"@);
    assert(seq!["tools/call"@][0] == "tools/call"@);
    RpcRoute::MethodNotFound
}

/// The tools the server offers.
#[derive(Clone, Copy, Debug, PartialEq, Eq, Structural)]
pub enum Tool {
    GetMemories,
    AddMemories,
    GetMemory,
    UpdateMemory,
    DeleteMemories,
    TogglePermanence,
    ClearMemories,
    Cleanup,
    LinkProjects,
    ListProjects,
    MemoryStats,
    MoveMemories,
    DeleteProjects,
    Unknown,
}

/// The names of the tools, in the order of the `Tool` variants.
pub open spec fn tool_names() -> Seq<Seq<char>> {
    seq![
        "get_memories"@,
        "add_memories"@,
        "get_memory"@,
        "update_memory"@,
        "delete_memories"@,
        "toggle_permanence"@,
        "clear_memories"@,
        "cleanup"@,
        "link_projects"@,
        "list_projects"@,
        "memory_stats"@,
        "move_memories"@,
        "delete_projects"@,
    ]
}

/// The position of a tool among `tool_names`, or the number of names for
/// an unknown tool.
pub open spec fn tool_index(t: Tool) -> int {
    match t {
        Tool::GetMemories => 0,
        Tool::AddMemories => 1,
        Tool::GetMemory => 2,
        Tool::UpdateMemory => 3,
        Tool::DeleteMemories => 4,
        Tool::TogglePermanence => 5,
        Tool::ClearMemories => 6,
        Tool::Cleanup => 7,
        Tool::LinkProjects => 8,
        Tool::ListProjects => 9,
        Tool::MemoryStats => 10,
        Tool::MoveMemories => 11,
        Tool::DeleteProjects => 12,
        Tool::Unknown => 13,
    }
}

fn tool_at(i: usize) -> (t: Tool)
    requires
        i < 13,
    ensures
        tool_index(t) == i,
{
    if i == 0 {
        Tool::GetMemories
    } else if i == 1 {
        Tool::AddMemories
    } else if i == 2 {
        Tool::GetMemory
    } else if i == 3 {
        Tool::UpdateMemory
    } else if i == 4 {
        Tool::DeleteMemories
    } else if i == 5 {
        Tool::TogglePermanence
    } else if i == 6 {
        Tool::ClearMemories
    } else if i == 7 {
        Tool::Cleanup
    } else if i == 8 {
        Tool::LinkProjects
    } else if i == 9 {
        Tool::ListProjects
    } else if i == 10 {
        Tool::MemoryStats
    } else if i == 11 {
        Tool::MoveMemories
    } else {
        Tool::DeleteProjects
    }
}

/// The tool a call names: the first tool whose name it is, or `Unknown`.
pub fn tool_from_name(name: &str) -> (t: Tool)
    ensures
        tool_index(t) < 13 ==> tool_names()[tool_index(t)] == name@ && forall|k: int|
            0 <= k < tool_index(t) ==> tool_names()[k] != name@,
        tool_index(t) == 13 <==> !tool_names().contains(name@),
{
    let names = vec![
        "get_memories",
        "add_memories",
        "get_memory",
        "update_memory",
        "delete_memories",
        "toggle_permanence",
        "clear_memories",
        "cleanup",
        "link_projects",
        "list_projects",
        "memory_stats",
        "move_memories",
        "delete_projects",
    ];
    assert(strs_view(names@) =~= tool_names());
    let n = chars_of(name);
    let mut i: usize = 0;
    while i < names.len()
        invariant
            i <= names.len(),
            names.len() == 13,
            n@ == name@,
            strs_view(names@) == tool_names(),
            forall|k: int| 0 <= k < i ==> tool_names()[k] != name@,
        decreases names.len() - i,
    {
        let w = chars_of(names[i]);
        assert(tool_names()[i as int] == w@);
        if chars_eq(&w, &n) {
            let t = tool_at(i);
            assert(tool_names()[tool_index(t)] == name@);
            assert(tool_names().contains(name@));
            return t;
        }
        i = i + 1;
    }
    Tool::Unknown
}

/// A numeric argument with its default: the given value or the default,
/// and the default again when the value does not fit in `usize`.
pub fn count_arg(value: Option<u64>, default: usize) -> (r: usize)
    ensures
        r == match value {
            Some(v) => if v <= usize::MAX {
                v as usize
            } else {
                default
            },
            None => default,
        },
{
    match value {
        Some(v) => {
            if v <= usize::MAX as u64 {
                v as usize
            } else {
                default
            }
        },
        None => {
            let d = default as u64;
            if d <= usize::MAX as u64 {
                d as usize
            } else {
                default
            }
        },
    }
}

/// The text of a tool error: `Error: ` and the message.
pub fn error_text(message: &str) -> (r: String)
    ensures
        r@ == "Error: "@ + message@,
{
    let mut v: Vec<char> = Vec::new();
    append_str(&mut v, "Error: ");
    append_str(&mut v, message);
    string_of(&v)
}

/// The message for an update of an unknown memory.
pub fn memory_not_found_message(memory_id: &str) -> (r: String)
    ensures
        r@ == "Memory ID '"@ + memory_id@ + "' not found"@,
{
    let mut v: Vec<char> = Vec::new();
    append_str(&mut v, "Memory ID '");
    append_str(&mut v, memory_id);
    append_str(&mut v, "' not found");
    string_of(&v)
}

/// The message for a call of an unknown tool.
pub fn unknown_tool_message(tool_name: &str) -> (r: String)
    ensures
        r@ == "Unknown tool: "@ + tool_name@,
{
    let mut v: Vec<char> = Vec::new();
    append_str(&mut v, "Unknown tool: ");
    append_str(&mut v, tool_name);
    string_of(&v)
}

/// The text of an installed executable's path: `\` turned into `/`.
pub fn exe_path_text(path: &str) -> (r: String)
    ensures
        r@ == replace_all(path@, seq!['\\'], seq!['/']),
{
    let p = chars_of(path);
    let back = vec!['\\'];
    let slash = vec!['/'];
    let out = replace_all_exec(&p, &back, &slash);
    assert(back@ =~= seq!['\\']);
    assert(slash@ =~= seq!['/']);
    string_of(&out)
}

/// The MCP configuration with the bare command replaced by the installed
/// executable's path.
pub open spec fn patched_mcp_config(template: Seq<char>, exe: Seq<char>) -> Seq<char> {
    replace_all(template, "\"command\": \"apm-mcp\""@, "\"command\": \""@ + exe + "\""@)
}

/// The hooks configuration with the bare hook command replaced by the
/// quoted installed executable's path followed by `hook`.
pub open spec fn patched_hooks_config(template: Seq<char>, exe: Seq<char>) -> Seq<char> {
    replace_all(
        template,
        "\"command\": \"apm-mcp hook\""@,
        "\"command\": \"\\\""@ + exe + "\\\" hook\""@,
    )
}

fn replace_text(template: &str, pattern: &str, replacement: &Vec<char>) -> (r: String)
    ensures
        r@ == replace_all(template@, pattern@, replacement@),
{
    let t = chars_of(template);
    let p = chars_of(pattern);
    if p.len() == 0 {
        return string_of(&t);
    }
    let out = replace_all_exec(&t, &p, replacement);
    string_of(&out)
}

/// Patches the MCP configuration (see `patched_mcp_config`).
pub fn patch_mcp_config(template: &str, exe: &str) -> (r: String)
    ensures
        r@ == patched_mcp_config(template@, exe@),
{
    let mut rep: Vec<char> = Vec::new();
    append_str(&mut rep, "\"command\": \"");
    append_str(&mut rep, exe);
    append_str(&mut rep, "\"");
    replace_text(template, "\"command\": \"apm-mcp\"", &rep)
}

/// Patches the hooks configuration (see `patched_hooks_config`).
pub fn patch_hooks_config(template: &str, exe: &str) -> (r: String)
    ensures
        r@ == patched_hooks_config(template@, exe@),
{
    let mut rep: Vec<char> = Vec::new();
    append_str(&mut rep, "\"command\": \"\\\"");
    append_str(&mut rep, exe);
    append_str(&mut rep, "\\\" hook\"");
    replace_text(template, "\"command\": \"apm-mcp hook\"", &rep)
}

/// The shell script that removes a directory in the background, retrying
/// once a second up to five times: PowerShell on Windows, `sh` elsewhere.
pub open spec fn deletion_script_text(dir: Seq<char>, windows: bool) -> Seq<char> {
    if windows {
        "$p = '"@ + dir
            + "'; for ($i=0; $i -lt 5; $i++) { Start-Sleep -Seconds 1; if (Test-Path $p) { Remove-Item -Path $p -Recurse -Force -ErrorAction SilentlyContinue } else { break } }"@
    } else {
        "for i in 1 2 3 4 5; do sleep 1; if [ -d '"@ + dir + "' ]; then rm -rf '"@ + dir
            + "'; else break; fi; done"@
    }
}

/// Builds the background deletion script (see `deletion_script_text`).
pub fn deletion_script(dir: &str, windows: bool) -> (r: String)
    ensures
        r@ == deletion_script_text(dir@, windows),
{
    let mut v: Vec<char> = Vec::new();
    if windows {
        append_str(&mut v, "$p = '");
        append_str(&mut v, dir);
        append_str(
            &mut v,
            "'; for ($i=0; $i -lt 5; $i++) { Start-Sleep -Seconds 1; if (Test-Path $p) { Remove-Item -Path $p -Recurse -Force -ErrorAction SilentlyContinue } else { break } }",
        );
    } else {
        append_str(&mut v, "for i in 1 2 3 4 5; do sleep 1; if [ -d '");
        append_str(&mut v, dir);
        append_str(&mut v, "' ]; then rm -rf '");
        append_str(&mut v, dir);
        append_str(&mut v, "'; else break; fi; done");
    }
    assert(v@ =~= deletion_script_text(dir@, windows));
    string_of(&v)
}

/// The files whose presence marks a project's root directory.
pub open spec fn root_markers() -> Seq<Seq<char>> {
    seq![
        ".git"@,
        "package.json"@,
        "Cargo.toml"@,
        "pyproject.toml"@,
        "go.mod"@,
        "pom.xml"@,
        "build.gradle"@,
        ".antigravity"@,
    ]
}

/// The root markers, in the order they are checked.
pub fn root_marker_names() -> (r: Vec<&'static str>)
    ensures
        strs_view(r@) == root_markers(),
{
    let r = vec![
        ".git",
        "package.json",
        "Cargo.toml",
        "pyproject.toml",
        "go.mod",
        "pom.xml",
        "build.gradle",
        ".antigravity",
    ];
    assert(strs_view(r@) =~= root_markers());
    r
}

/// The directory to start a root search from: the given path, trimmed,
/// when it is not blank; none (the current directory) otherwise.
pub fn search_start(starting_path: Option<&str>) -> (r: Option<String>)
    ensures
        match starting_path {
            Some(p) if trim_ws(p@).len() > 0 => r matches Some(s) && s@ == trim_ws(p@),
            _ => r is None,
        },
{
    match starting_path {
        Some(p) => {
            let pv = chars_of(p);
            let t = trim_exec(&pv, TrimKind::Whitespace);
            if t.len() > 0 {
                Some(string_of(&t))
            } else {
                None
            }
        },
        None => None,
    }
}

/// The error for a path inside an IDE's installation directory.
pub fn ide_dir_error(display: &str) -> (r: String)
    ensures
        r@ == "Path '"@ + display@
            + "' is an IDE application installation directory, not a user project workspace."@,
{
    let mut v: Vec<char> = Vec::new();
    append_str(&mut v, "Path '");
    append_str(&mut v, display);
    append_str(
        &mut v,
        "' is an IDE application installation directory, not a user project workspace.",
    );
    string_of(&v)
}

/// The first candidate directory that holds a root marker, in the order
/// the search visits them (from the start upwards); none when no candidate
/// does.
pub open spec fn first_marked(candidates: Seq<(Seq<char>, bool)>) -> Option<Seq<char>>
    decreases candidates.len(),
{
    if candidates.len() == 0 {
        None
    } else if candidates[0].1 {
        Some(candidates[0].0)
    } else {
        first_marked(candidates.drop_first())
    }
}

/// The plain-value form of root-search candidates.
pub open spec fn candidate_views(cs: Seq<(String, bool)>) -> Seq<(Seq<char>, bool)> {
    cs.map_values(|c: (String, bool)| (c.0@, c.1))
}

/// The project root: the first visited directory that holds a root
/// marker, else the start directory itself. The search visits the start
/// directory and its ancestors, up to but not including the top one (which
/// has no parent); each candidate comes with whether it holds a marker.
pub fn choose_project_root(candidates: Vec<(String, bool)>, start: String) -> (r: String)
    ensures
        r@ == match first_marked(candidate_views(candidates@)) {
            Some(d) => d,
            None => start@,
        },
{
    let ghost cs = candidate_views(candidates@);
    let mut rest = candidates;
    let mut i: usize = 0;
    let n0 = rest.len();
    assert(cs.len() == n0);
    assert(cs.skip(0) =~= cs);
    while rest.len() > 0
        invariant
            i + rest.len() == cs.len(),
            cs == candidate_views(candidates@),
            cs.len() <= usize::MAX,
            candidate_views(rest@) == cs.skip(i as int),
            first_marked(cs) == first_marked(cs.skip(i as int)),
        decreases rest.len(),
    {
        let (dir, marked) = rest.remove(0);
        assert(cs.skip(i as int)[0] == (dir@, marked));
        assert(cs.skip(i as int).drop_first() =~= cs.skip(i as int + 1));
        assert(candidate_views(rest@) =~= cs.skip(i as int + 1));
        if marked {
            return dir;
        }
        i = i + 1;
    }
    assert(cs.skip(i as int) =~= Seq::<(Seq<char>, bool)>::empty());
    start
}

} // verus!

use apm_memory::protocol::{
    choose_project_root, cli_mode, count_arg, deletion_script, error_text, exe_path_text,
    ide_dir_error, memory_not_found_message, patch_hooks_config, patch_mcp_config,
    root_marker_names, route_request, search_start, tool_from_name, unknown_tool_message, CliMode,
    RpcRoute, Tool,
};

#[test]
fn cli_mode_known_commands() {
    assert!(matches!(cli_mode(Some("install"), None, true), CliMode::Install));
    assert!(matches!(cli_mode(Some("--install"), None, false), CliMode::Install));
    assert!(matches!(cli_mode(Some("uninstall"), None, true), CliMode::Uninstall));
    assert!(matches!(cli_mode(Some("hook"), None, true), CliMode::Hook));
    assert!(matches!(cli_mode(Some("--hook"), None, true), CliMode::Hook));
    assert!(matches!(cli_mode(Some("-h"), None, false), CliMode::Help));
    assert!(matches!(cli_mode(Some("stdio"), None, true), CliMode::Mcp));
    assert!(matches!(cli_mode(Some("-m"), None, true), CliMode::Mcp));
}

#[test]
fn cli_mode_export_and_import_files() {
    match cli_mode(Some("export"), None, true) {
        CliMode::Export(f) => assert_eq!(f, "memory-backup.json"),
        _ => panic!("expected export"),
    }
    match cli_mode(Some("--export"), Some("out.json"), true) {
        CliMode::Export(f) => assert_eq!(f, "out.json"),
        _ => panic!("expected export"),
    }
    match cli_mode(Some("import"), Some("in.json"), true) {
        CliMode::Import(f) => assert_eq!(f, Some("in.json".to_string())),
        _ => panic!("expected import"),
    }
    match cli_mode(Some("import"), None, true) {
        CliMode::Import(f) => assert_eq!(f, None),
        _ => panic!("expected import"),
    }
}

#[test]
fn cli_mode_without_or_with_unknown_command() {
    assert!(matches!(cli_mode(None, None, true), CliMode::Help));
    assert!(matches!(cli_mode(None, None, false), CliMode::Mcp));
    match cli_mode(Some("frobnicate"), None, true) {
        CliMode::UnknownCommand(c) => assert_eq!(c, "frobnicate"),
        _ => panic!("expected unknown command"),
    }
    match cli_mode(Some("frobnicate"), None, false) {
        CliMode::UnknownFallback(c) => assert_eq!(c, "frobnicate"),
        _ => panic!("expected fallback"),
    }
    // Command words are matched exactly.
    assert!(matches!(cli_mode(Some("Install"), None, true), CliMode::UnknownCommand(_)));
}

#[test]
fn routes_of_json_rpc_methods() {
    assert!(matches!(route_request("notifications/initialized"), RpcRoute::Ignore));
    assert!(matches!(route_request("notifications/"), RpcRoute::Ignore));
    assert!(matches!(route_request("initialize"), RpcRoute::Initialize));
    assert!(matches!(route_request("ping"), RpcRoute::Ping));
    assert!(matches!(route_request("tools/list"), RpcRoute::ListTools));
    assert!(matches!(route_request("tools/call"), RpcRoute::CallTool));
    assert!(matches!(route_request("resources/list"), RpcRoute::MethodNotFound));
    assert!(matches!(route_request("notification"), RpcRoute::MethodNotFound));
    assert!(matches!(route_request(""), RpcRoute::MethodNotFound));
}

#[test]
fn tools_by_name() {
    assert!(matches!(tool_from_name("get_memories"), Tool::GetMemories));
    assert!(matches!(tool_from_name("add_memories"), Tool::AddMemories));
    assert!(matches!(tool_from_name("get_memory"), Tool::GetMemory));
    assert!(matches!(tool_from_name("update_memory"), Tool::UpdateMemory));
    assert!(matches!(tool_from_name("delete_memories"), Tool::DeleteMemories));
    assert!(matches!(tool_from_name("toggle_permanence"), Tool::TogglePermanence));
    assert!(matches!(tool_from_name("clear_memories"), Tool::ClearMemories));
    assert!(matches!(tool_from_name("cleanup"), Tool::Cleanup));
    assert!(matches!(tool_from_name("link_projects"), Tool::LinkProjects));
    assert!(matches!(tool_from_name("list_projects"), Tool::ListProjects));
    assert!(matches!(tool_from_name("memory_stats"), Tool::MemoryStats));
    assert!(matches!(tool_from_name("move_memories"), Tool::MoveMemories));
    assert!(matches!(tool_from_name("delete_projects"), Tool::DeleteProjects));
    assert!(matches!(tool_from_name("get_memoriess"), Tool::Unknown));
    assert!(matches!(tool_from_name(""), Tool::Unknown));
}

#[test]
fn numeric_arguments_and_defaults() {
    assert_eq!(count_arg(None, 100), 100);
    assert_eq!(count_arg(Some(7), 100), 7);
    assert_eq!(count_arg(Some(0), 50), 0);
}

#[test]
fn tool_messages() {
    assert_eq!(error_text("Memory ID not found"), "Error: Memory ID not found");
    assert_eq!(memory_not_found_message("m_1"), "Memory ID 'm_1' not found");
    assert_eq!(unknown_tool_message("frob"), "Unknown tool: frob");
    assert_eq!(
        ide_dir_error("/opt/antigravity"),
        "Path '/opt/antigravity' is an IDE application installation directory, not a user project workspace."
    );
}

#[test]
fn installation_patches() {
    assert_eq!(exe_path_text("C:\\Users\\me\\bin\\apm-mcp.exe"), "C:/Users/me/bin/apm-mcp.exe");
    let mcp = "{\"apm\": {\"command\": \"apm-mcp\", \"args\": []}}";
    assert_eq!(
        patch_mcp_config(mcp, "/h/bin/apm-mcp"),
        "{\"apm\": {\"command\": \"/h/bin/apm-mcp\", \"args\": []}}"
    );
    let hooks = "[{\"command\": \"apm-mcp hook\"}, {\"command\": \"apm-mcp hook\"}]";
    assert_eq!(
        patch_hooks_config(hooks, "/h/bin/apm-mcp"),
        "[{\"command\": \"\\\"/h/bin/apm-mcp\\\" hook\"}, {\"command\": \"\\\"/h/bin/apm-mcp\\\" hook\"}]"
    );
    // A template without the placeholder is left as it is.
    assert_eq!(patch_mcp_config("{}", "/x"), "{}");
}

#[test]
fn deletion_scripts() {
    assert_eq!(
        deletion_script("/h/.gemini/config/memory", false),
        "for i in 1 2 3 4 5; do sleep 1; if [ -d '/h/.gemini/config/memory' ]; then rm -rf '/h/.gemini/config/memory'; else break; fi; done"
    );
    assert_eq!(
        deletion_script("C:\\p", true),
        "$p = 'C:\\p'; for ($i=0; $i -lt 5; $i++) { Start-Sleep -Seconds 1; if (Test-Path $p) { Remove-Item -Path $p -Recurse -Force -ErrorAction SilentlyContinue } else { break } }"
    );
}

#[test]
fn project_root_search() {
    assert_eq!(
        root_marker_names(),
        vec![".git", "package.json", "Cargo.toml", "pyproject.toml", "go.mod", "pom.xml", "build.gradle", ".antigravity"]
    );
    assert_eq!(search_start(Some("  /home/u/p  ")), Some("/home/u/p".to_string()));
    assert_eq!(search_start(Some("   ")), None);
    assert_eq!(search_start(None), None);
    let cands = vec![
        ("/a/b/c".to_string(), false),
        ("/a/b".to_string(), true),
        ("/a".to_string(), true),
    ];
    assert_eq!(choose_project_root(cands, "/a/b/c".to_string()), "/a/b");
    let none = vec![("/a/b".to_string(), false), ("/a".to_string(), false)];
    assert_eq!(choose_project_root(none, "/a/b".to_string()), "/a/b");
    assert_eq!(choose_project_root(Vec::new(), "/".to_string()), "/");
}

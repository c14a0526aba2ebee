use apm_memory::hook_context::{
    add_project_once, build_hook_context, linked_ids_to_load, prompt_for_search, LinkedRules,
    ProjectContext, MAX_GLOBAL_MEMORIES, MAX_PERMANENT_MEMORIES, MAX_SHORT_TERM_MEMORIES,
    PROMPT_MATCH_LIMIT,
};
use apm_memory::store::{MemoryRecord, ProjectRecord};

fn strs(v: &[&str]) -> Vec<String> {
    v.iter().map(|s| s.to_string()).collect()
}

fn project(id: &str, name: &str, links: &[&str]) -> ProjectRecord {
    ProjectRecord {
        id: id.to_string(),
        name: name.to_string(),
        path: format!("/w/{name}"),
        created_at: "t0".to_string(),
        last_active: "t0".to_string(),
        memory_count: 0,
        linked_project_ids: strs(links),
    }
}

fn mem(id: &str, content: &str) -> MemoryRecord {
    MemoryRecord {
        id: id.to_string(),
        project_id: "p".to_string(),
        content: content.to_string(),
        created_at: "t0".to_string(),
        tags: Vec::new(),
        metadata: "{}".to_string(),
        tokens_estimated: 1,
        is_permanent: true,
    }
}

fn ctx(p: ProjectRecord) -> ProjectContext {
    ProjectContext { project: p, permanent: Vec::new(), short_term: Vec::new(), linked: Vec::new() }
}

const HEAD: &str = "CRITICAL MEMORY DIRECTIVE: To answer questions about stored memories, rules, or saved context, you MUST FIRST execute call_mcp_tool(ServerName=\"apm-mcp\", ToolName=\"get_memories\", Arguments={\"project_id\": \"";
const TAIL: &str = "\"}). DO NOT scan repository files before calling get_memories, and NEVER substitute repository files as stored memories. The final answer MUST be constructed strictly from the memory records returned by get_memories.";
const EMPTY: &str = "\n[Database Status: No saved memories currently recorded for this project in DB. Invoke call_mcp_tool(ServerName=\"apm-mcp\", ToolName=\"get_memories\", Arguments={\"project_id\": \"<active_project_id>\"}) to query.]\n";

#[test]
fn limits_of_injected_memories() {
    assert_eq!(MAX_GLOBAL_MEMORIES, 1000);
    assert_eq!(MAX_PERMANENT_MEMORIES, 1000);
    assert_eq!(MAX_SHORT_TERM_MEMORIES, 50);
    assert_eq!(PROMPT_MATCH_LIMIT, 5);
}

#[test]
fn empty_context_for_one_project() {
    let ps = vec![ctx(project("abc", "Proj", &[]))];
    let out = build_hook_context(&ps, &Vec::new(), &Vec::new());
    let expected = format!("[Memory Context: Proj | Project ID: abc]\n{HEAD}abc{TAIL}\n{EMPTY}");
    assert_eq!(out, expected);
}

#[test]
fn full_context_for_one_project() {
    let mut pc = ctx(project("abc", "Proj", &["lnk"]));
    pc.permanent = vec![mem("r1", "Use tabs")];
    pc.short_term = vec![mem("s1", "Fixed login bug")];
    pc.linked = vec![
        LinkedRules { project_id: "empty".to_string(), memories: Vec::new() },
        LinkedRules { project_id: "lnk".to_string(), memories: vec![mem("l1", "Shared rule")] },
    ];
    let global = vec![mem("g1", "Answer briefly")];
    let matched = vec![mem("r1", "Use tabs"), mem("g1", "Answer briefly"), mem("r1", "Use tabs")];
    let out = build_hook_context(&vec![pc], &global, &matched);
    let expected = format!(
        "[Memory Context: Proj | Project ID: abc]\n{HEAD}abc{TAIL}\n\
         \nGlobal User Rules:\n- Answer briefly\n\
         \nProject Permanent Rules:\n- Use tabs\n\
         \nLinked Project Rules (from: lnk):\n- Shared rule\n\
         \nProject Short-Term Memories:\n- Fixed login bug\n\
         \nAuto-Injected Relevant Rules (Prompt Match):\n- [r1] Use tabs\n- [g1] Answer briefly\n"
    );
    assert_eq!(out, expected);
}

#[test]
fn context_for_several_projects_names_each() {
    let mut a = ctx(project("ida", "A", &[]));
    a.short_term = vec![mem("s", "note")];
    let b = ctx(project("idb", "B", &[]));
    let out = build_hook_context(&vec![a, b], &Vec::new(), &Vec::new());
    let expected = format!(
        "[Memory Context: A, B | Active Project IDs: ida, idb]\n{HEAD}<active_project_id>{TAIL}\n\
         \nProject Short-Term Memories (A):\n- note\n"
    );
    assert_eq!(out, expected);
}

#[test]
fn active_projects_are_listed_once() {
    let mut ps: Vec<ProjectRecord> = Vec::new();
    assert!(add_project_once(&mut ps, project("a", "A", &[])));
    assert!(add_project_once(&mut ps, project("b", "B", &[])));
    assert!(!add_project_once(&mut ps, project("a", "Other", &[])));
    assert_eq!(ps.len(), 2);
    assert_eq!(ps[0].name, "A");
}

#[test]
fn linked_projects_to_load() {
    let p = project("me", "Me", &["x", "me", "global", "y", "z"]);
    assert_eq!(linked_ids_to_load(&p, &strs(&["y"])), strs(&["x", "z"]));
    assert!(linked_ids_to_load(&project("me", "Me", &[]), &Vec::new()).is_empty());
}

#[test]
fn prompt_used_for_search() {
    assert_eq!(
        prompt_for_search(Some("  fix the db  ".to_string()), Some("other".to_string())),
        Some("fix the db".to_string())
    );
    assert_eq!(prompt_for_search(None, Some(" abc ".to_string())), Some("abc".to_string()));
    assert_eq!(prompt_for_search(Some(" ab ".to_string()), Some("long prompt".to_string())), None);
    assert_eq!(prompt_for_search(None, None), None);
    // Three bytes are enough, whatever the number of characters.
    assert_eq!(prompt_for_search(Some("é1".to_string()), None), Some("é1".to_string()));
}

#[test]
fn every_rule_is_injected() {
    let mut a = ctx(project("ida", "A", &[]));
    a.permanent = vec![mem("p1", "Rule one"), mem("p2", "Rule two")];
    a.linked = vec![LinkedRules { project_id: "x".to_string(), memories: vec![mem("l", "Linked")] }];
    let mut b = ctx(project("idb", "B", &[]));
    b.short_term = vec![mem("s1", "Recent")];
    let global = vec![mem("g1", "Global one"), mem("g2", "Global two")];
    let out = build_hook_context(&vec![a, b], &global, &Vec::new());
    for line in ["- Rule one\n", "- Rule two\n", "- Linked\n", "- Recent\n", "- Global one\n", "- Global two\n"] {
        assert!(out.contains(line), "missing {line:?}");
    }
}

use apm_memory::project::DetectedProject;
use apm_memory::sql::delete_project_sql;
use apm_memory::store::{
    active_lookup_keys, add_link, backup_version, clear_allowed, global_clear_refused_message,
    global_project_name, deletable_project_identifiers, estimate_tokens,
    excess_memory_ids, filter_memories, memory_scope, merge_memory_update, new_memory_id,
    plan_memory_query, plan_memory_upserts, plan_project, projects_to_recount, resolve_fallback,
    resolve_first_step, session_keys, BatchMemoryItem, MemoryRecord, ProjectRecord, ProjectWrite,
    ResolveStep, DEFAULT_READ_LIMIT, RETENTION_EXPIRE_DAYS, RETENTION_MAX_MEMORIES,
};

fn strs(v: &[&str]) -> Vec<String> {
    v.iter().map(|s| s.to_string()).collect()
}

fn mem(id: &str, content: &str, tags: &[&str], perm: bool) -> MemoryRecord {
    MemoryRecord {
        id: id.to_string(),
        project_id: "p1".to_string(),
        content: content.to_string(),
        created_at: "2024-01-01T00:00:00+00:00".to_string(),
        tags: strs(tags),
        metadata: "{}".to_string(),
        tokens_estimated: 1,
        is_permanent: perm,
    }
}

fn ids(v: &[MemoryRecord]) -> Vec<String> {
    v.iter().map(|m| m.id.clone()).collect()
}

fn item(content: &str, tags: Option<&[&str]>, perm: Option<bool>) -> BatchMemoryItem {
    BatchMemoryItem {
        content: content.to_string(),
        tags: tags.map(strs),
        metadata: None,
        is_permanent: perm,
    }
}

#[test]
fn retention_and_read_defaults() {
    assert_eq!(RETENTION_MAX_MEMORIES, 50);
    assert_eq!(RETENTION_EXPIRE_DAYS, 30);
    assert_eq!(DEFAULT_READ_LIMIT, 100);
}

#[test]
fn backups_carry_version_one() {
    assert_eq!(backup_version(), "1.0.0");
}

#[test]
fn read_scope_of_a_global_read_is_global_only() {
    assert_eq!(memory_scope(true, "p1", strs(&["p2"])), strs(&["global"]));
}

#[test]
fn read_scope_covers_target_global_and_links_once() {
    assert_eq!(
        memory_scope(false, "p1", strs(&["p2", "global", "p1", "p2", "p3"])),
        strs(&["p1", "global", "p2", "p3"])
    );
    assert_eq!(memory_scope(false, "p1", Vec::new()), strs(&["p1", "global"]));
}

#[test]
fn query_plans() {
    assert!(plan_memory_query(None).is_none());
    assert!(plan_memory_query(Some("   ")).is_none());
    let p = plan_memory_query(Some("  Cargo Test ")).unwrap();
    assert_eq!(p.fts_query, "\"Cargo\"* AND \"Test\"*");
    assert_eq!(p.like_pattern, "%cargo test%");
    let q = plan_memory_query(Some("a")).unwrap();
    assert_eq!(q.fts_query, "\"a\"*");
    assert_eq!(q.like_pattern, "%a%");
}

#[test]
fn filters_on_permanence_tags_and_limit() {
    let recs = || {
        vec![
            mem("a", "x", &["rust"], true),
            mem("b", "y", &["git"], false),
            mem("c", "z", &["git", "rust"], true),
        ]
    };
    assert_eq!(ids(&filter_memories(recs(), Some(true), None, 10)), strs(&["a", "c"]));
    assert_eq!(ids(&filter_memories(recs(), Some(false), None, 10)), strs(&["b"]));
    assert_eq!(ids(&filter_memories(recs(), None, Some(strs(&["git"])), 10)), strs(&["b", "c"]));
    assert_eq!(
        ids(&filter_memories(recs(), Some(true), Some(strs(&["git", "sql"])), 10)),
        strs(&["c"])
    );
    // An empty tag list filters nothing.
    assert_eq!(ids(&filter_memories(recs(), None, Some(Vec::new()), 10)), strs(&["a", "b", "c"]));
    assert_eq!(ids(&filter_memories(recs(), None, None, 2)), strs(&["a", "b"]));
    assert_eq!(filter_memories(recs(), None, None, 0).len(), 0);
}

#[test]
fn token_estimates() {
    assert_eq!(estimate_tokens(""), 1);
    assert_eq!(estimate_tokens("abc"), 1);
    assert_eq!(estimate_tokens("abcdefgh"), 2);
    assert_eq!(estimate_tokens("abcdefghijk"), 2);
    // Bytes, not characters, are counted.
    assert_eq!(estimate_tokens("éééé"), 2);
}

#[test]
fn memory_ids() {
    assert_eq!(new_memory_id("proj", 1700000000000, 1), "proj_1700000000000_1");
    assert_eq!(new_memory_id("global", 0, 12), "global_0_12");
    assert_eq!(new_memory_id("g", -5, 3), "g_-5_3");
}

#[test]
fn upsert_plan_replaces_similar_and_skips_blank() {
    let existing = vec![mem("m1", "Dùng port 8080 cho server API", &["rule"], false)];
    let mut third = item("Use TypeScript and React", Some(&[]), None);
    third.metadata = Some("{\"a\":1}".to_string());
    let items = vec![
        item("  Dùng port 3000 cho server API  ", None, Some(true)),
        item("   ", None, None),
        third,
        item("Prefer tabs", Some(&["style"]), Some(false)),
    ];
    let plan = plan_memory_upserts(&existing, items);
    assert_eq!(plan.len(), 3);

    assert_eq!(plan[0].replaces, Some("m1".to_string()));
    assert_eq!(plan[0].ordinal, 1);
    assert_eq!(plan[0].content, "Dùng port 3000 cho server API");
    assert_eq!(plan[0].tags, strs(&["rule"]));
    assert_eq!(plan[0].metadata, "{}");
    assert!(plan[0].is_permanent);
    assert_eq!(plan[0].tokens_estimated, 7);

    assert_eq!(plan[1].replaces, None);
    assert_eq!(plan[1].ordinal, 3);
    assert_eq!(plan[1].tags, strs(&["typescript", "react"]));
    assert_eq!(plan[1].metadata, "{\"a\":1}");
    assert!(!plan[1].is_permanent);
    assert_eq!(plan[1].tokens_estimated, 6);

    assert_eq!(plan[2].replaces, None);
    assert_eq!(plan[2].ordinal, 4);
    assert_eq!(plan[2].tags, strs(&["style"]));
}

#[test]
fn upsert_plan_of_nothing_is_empty() {
    let existing = vec![mem("m1", "anything", &[], false)];
    assert_eq!(plan_memory_upserts(&existing, Vec::new()).len(), 0);
}

#[test]
fn updates_keep_what_is_not_given() {
    let existing = mem("m1", "old text here", &["a"], true);
    let u = merge_memory_update(existing.clone(), None, None, None, None);
    assert_eq!(u.content, "old text here");
    assert_eq!(u.tags, strs(&["a"]));
    assert_eq!(u.metadata, "{}");
    assert!(u.is_permanent);
    assert_eq!(u.tokens_estimated, 3);

    let v = merge_memory_update(
        existing,
        Some("  new  "),
        Some(strs(&["b", "c"])),
        Some("{\"k\":2}".to_string()),
        Some(false),
    );
    assert_eq!(v.content, "new");
    assert_eq!(v.tags, strs(&["b", "c"]));
    assert_eq!(v.metadata, "{\"k\":2}");
    assert!(!v.is_permanent);
    assert_eq!(v.tokens_estimated, 1);
}

fn detected() -> DetectedProject {
    DetectedProject { id: "abc".to_string(), name: "Proj".to_string(), path: "/p".to_string() }
}

#[test]
fn project_plans() {
    let stored = ProjectRecord {
        id: "abc".to_string(),
        name: "Old".to_string(),
        path: "/old".to_string(),
        created_at: "t0".to_string(),
        last_active: "t1".to_string(),
        memory_count: 3,
        linked_project_ids: strs(&["x"]),
    };
    let (p, w) = plan_project(Some(stored), detected(), "t2".to_string(), false, 5);
    assert_eq!(w, ProjectWrite::UpdateExisting);
    assert_eq!((p.id.as_str(), p.name.as_str(), p.path.as_str()), ("abc", "Proj", "/p"));
    assert_eq!((p.created_at.as_str(), p.last_active.as_str()), ("t0", "t2"));
    assert_eq!(p.memory_count, 5);
    assert_eq!(p.linked_project_ids, strs(&["x"]));

    let (n, w2) = plan_project(None, detected(), "t9".to_string(), true, 5);
    assert_eq!(w2, ProjectWrite::InsertNew);
    assert_eq!((n.created_at.as_str(), n.last_active.as_str()), ("t9", "t9"));
    assert_eq!(n.memory_count, 0);
    assert!(n.linked_project_ids.is_empty());
    let (_, w3) = plan_project(None, detected(), "t9".to_string(), false, 5);
    assert_eq!(w3, ProjectWrite::NoWrite);
}

#[test]
fn target_resolution_steps() {
    assert!(matches!(resolve_first_step(true, Some("x")), ResolveStep::Global));
    assert!(matches!(resolve_first_step(false, Some(" GLOBAL ")), ResolveStep::Global));
    match resolve_first_step(false, Some("  myproj ")) {
        ResolveStep::Lookup(t) => assert_eq!(t, "myproj"),
        _ => panic!("expected a lookup"),
    }
    assert!(matches!(resolve_first_step(false, Some("   ")), ResolveStep::Detect));
    assert!(matches!(resolve_first_step(false, None), ResolveStep::Detect));
    assert_eq!(resolve_fallback(Some("a".to_string()), Some("b".to_string())), "a");
    assert_eq!(resolve_fallback(None, Some("b".to_string())), "b");
    assert_eq!(resolve_fallback(None, None), "global");
}

#[test]
fn the_global_project_is_never_deleted() {
    assert_eq!(
        deletable_project_identifiers(strs(&[" a ", "global", " global ", "Global", "b"])),
        strs(&["a", "Global", "b"])
    );
    assert!(deletable_project_identifiers(strs(&["global"])).is_empty());
    // The global project's name, in any ASCII letter case, is held back too.
    assert!(deletable_project_identifiers(strs(&["Global User Memories", " global USER memories "]))
        .is_empty());
    assert_eq!(global_project_name(), "Global User Memories");
    assert_eq!(
        delete_project_sql(),
        "DELETE FROM projects WHERE id != 'global' AND (id = ?1 OR name = ?1 COLLATE NOCASE)"
    );
}

#[test]
fn retention_keeps_the_newest() {
    assert_eq!(excess_memory_ids(strs(&["n1", "n2", "n3"]), 2), strs(&["n3"]));
    assert!(excess_memory_ids(strs(&["n1", "n2"]), 2).is_empty());
    assert_eq!(excess_memory_ids(strs(&["n1", "n2"]), 0), strs(&["n1", "n2"]));
}

#[test]
fn linking_projects() {
    assert_eq!(add_link(strs(&["p2"]), "p1", "p3".to_string()), strs(&["p2", "p3"]));
    assert_eq!(add_link(strs(&["p2"]), "p1", "p2".to_string()), strs(&["p2"]));
    assert_eq!(add_link(strs(&["p2"]), "p1", "p1".to_string()), strs(&["p2"]));
    assert_eq!(add_link(strs(&["p2"]), "p1", "global".to_string()), strs(&["p2"]));
    // Linking twice is linking once.
    let once = add_link(Vec::new(), "p1", "p3".to_string());
    assert_eq!(add_link(once.clone(), "p1", "p3".to_string()), once);
}

#[test]
fn session_keys_isolate_windows() {
    assert_eq!(
        session_keys(1234, Some(" conv9 ")),
        strs(&["latest", "ppid_1234", "conv_conv9"])
    );
    assert_eq!(session_keys(0, None), strs(&["latest"]));
    assert_eq!(session_keys(0, Some("   ")), strs(&["latest"]));
    assert_eq!(session_keys(7, None), strs(&["latest", "ppid_7"]));
    assert_eq!(active_lookup_keys(77), strs(&["ppid_77", "latest"]));
    assert_eq!(active_lookup_keys(0), strs(&["latest"]));
}

#[test]
fn recounted_projects() {
    assert_eq!(
        projects_to_recount(strs(&["a", "b", "a"]), Some("b".to_string())),
        strs(&["a", "b"])
    );
    assert_eq!(projects_to_recount(strs(&["a"]), Some("c".to_string())), strs(&["a", "c"]));
    assert!(projects_to_recount(Vec::new(), None).is_empty());
}

#[test]
fn session_keys_never_collide() {
    let a = session_keys(12, Some("c"));
    let b = session_keys(123, Some("d"));
    assert_ne!(a[1], b[1]);
    assert_ne!(a[2], b[2]);
    assert_ne!(a[1], a[2]);
    assert!(a.iter().filter(|k| k.as_str() == "latest").count() == 1);
}

#[test]
fn global_memories_are_cleared_only_on_request() {
    assert!(clear_allowed(true, "global"));
    assert!(!clear_allowed(false, "global"));
    assert!(clear_allowed(false, "abc123"));
    assert!(clear_allowed(false, "Global"));
    assert_eq!(
        global_clear_refused_message(),
        "The global project is protected: set is_global=true to clear global memories"
    );
}

#[test]
fn lookup_keys_are_recorded_keys() {
    for pid in [0u32, 1, 4242] {
        let recorded = session_keys(pid, Some("conv"));
        for key in active_lookup_keys(pid) {
            assert!(recorded.contains(&key));
        }
    }
}

use apm_memory::sql::{
    delete_memories_sql, fts_search_sql, like_search_sql, list_memories_sql, move_memories_sql,
    toggle_permanence_sql,
};

#[test]
fn list_statement_binds_each_project() {
    assert_eq!(
        list_memories_sql(3),
        "SELECT id, project_id, content, tags, metadata, is_permanent, created_at, tokens_estimated FROM memories WHERE project_id IN (?1, ?2, ?3) ORDER BY is_permanent DESC, created_at DESC"
    );
    assert_eq!(
        list_memories_sql(1),
        "SELECT id, project_id, content, tags, metadata, is_permanent, created_at, tokens_estimated FROM memories WHERE project_id IN (?1) ORDER BY is_permanent DESC, created_at DESC"
    );
}

#[test]
fn search_statements_number_the_query_after_the_projects() {
    assert_eq!(
        fts_search_sql(2),
        "SELECT m.id, m.project_id, m.content, m.tags, m.metadata, m.is_permanent, m.created_at, m.tokens_estimated FROM memories_fts fts JOIN memories m ON fts.id = m.id WHERE m.project_id IN (?1, ?2) AND memories_fts MATCH ?3 ORDER BY bm25(memories_fts), m.is_permanent DESC, m.created_at DESC"
    );
    assert_eq!(
        like_search_sql(2),
        "SELECT id, project_id, content, tags, metadata, is_permanent, created_at, tokens_estimated FROM memories WHERE project_id IN (?1, ?2) AND (LOWER(content) LIKE ?3 OR LOWER(tags) LIKE ?4) ORDER BY is_permanent DESC, created_at DESC"
    );
}

#[test]
fn statements_over_memory_ids() {
    assert_eq!(delete_memories_sql(2), "DELETE FROM memories WHERE id IN (?1, ?2)");
    assert_eq!(delete_memories_sql(0), "DELETE FROM memories WHERE id IN ()");
    assert_eq!(
        toggle_permanence_sql(3),
        "UPDATE memories SET is_permanent = ?4 WHERE id IN (?1, ?2, ?3)"
    );
    assert_eq!(move_memories_sql(1), "UPDATE memories SET project_id = ?2 WHERE id IN (?1)");
}

#[test]
fn placeholders_past_nine_have_two_digits() {
    let sql = delete_memories_sql(11);
    assert_eq!(
        sql,
        "DELETE FROM memories WHERE id IN (?1, ?2, ?3, ?4, ?5, ?6, ?7, ?8, ?9, ?10, ?11)"
    );
}

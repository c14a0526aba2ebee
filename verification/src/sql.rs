//! The SQL statements whose shape depends on how many values they bind.
use vstd::prelude::*;

use crate::decimal::{dec_digits, push_decimal};
use crate::text::{append_str, string_of};

verus! {

/// The numbered parameter `?k`.
pub open spec fn param(k: nat) -> Seq<char> {
    "?"@ + dec_digits(k)
}

/// The parameters `?1, ?2, ..., ?n`.
pub open spec fn placeholders(n: nat) -> Seq<char>
    decreases n,
{
    if n == 0 {
        Seq::empty()
    } else if n == 1 {
        param(1)
    } else {
        placeholders((n - 1) as nat) + ", "@ + param(n)
    }
}

fn push_param(out: &mut Vec<char>, k: u64)
    ensures
        final(out)@ == old(out)@ + param(k as nat),
{
    append_str(out, "?");
    push_decimal(out, k);
    assert(final(out)@ =~= old(out)@ + param(k as nat));
}

fn push_placeholders(out: &mut Vec<char>, n: u64)
    ensures
        final(out)@ == old(out)@ + placeholders(n as nat),
{
    let ghost start = out@;
    if n == 0 {
        assert(out@ =~= start + placeholders(0));
        return;
    }
    push_param(out, 1);
    let mut k: u64 = 1;
    while k < n
        invariant
            1 <= k <= n,
            out@ == start + placeholders(k as nat),
        decreases n - k,
    {
        let ghost before = out@;
        append_str(out, ", ");
        push_param(out, k + 1);
        assert(out@ =~= start + placeholders((k + 1) as nat));
        k = k + 1;
    }
}

/// The columns of a memory row, as selected.
pub open spec fn memory_columns() -> Seq<char> {
    "id, project_id, content, tags, metadata, is_permanent, created_at, tokens_estimated"@
}

/// Every memory of `n` projects, permanent rules first, newest first.
pub open spec fn list_memories_sql_text(n: nat) -> Seq<char> {
    "SELECT "@ + memory_columns() + " FROM memories WHERE project_id IN ("@ + placeholders(n)
        + ") ORDER BY is_permanent DESC, created_at DESC"@
}

/// Builds `list_memories_sql_text`.
pub fn list_memories_sql(n: u64) -> (r: String)
    ensures
        r@ == list_memories_sql_text(n as nat),
{
    let mut v: Vec<char> = Vec::new();
    append_str(&mut v, "SELECT ");
    append_str(
        &mut v,
        "id, project_id, content, tags, metadata, is_permanent, created_at, tokens_estimated",
    );
    append_str(&mut v, " FROM memories WHERE project_id IN (");
    push_placeholders(&mut v, n);
    append_str(&mut v, ") ORDER BY is_permanent DESC, created_at DESC");
    assert(v@ =~= list_memories_sql_text(n as nat));
    string_of(&v)
}

/// A full-text search over the memories of `n` projects; the query is
/// parameter `n + 1`; best matches first, then permanent rules, then newest.
pub open spec fn fts_search_sql_text(n: nat) -> Seq<char> {
    "SELECT m.id, m.project_id, m.content, m.tags, m.metadata, m.is_permanent, m.created_at, m.tokens_estimated FROM memories_fts fts JOIN memories m ON fts.id = m.id WHERE m.project_id IN ("@
        + placeholders(n) + ") AND memories_fts MATCH "@ + param(n + 1)
        + " ORDER BY bm25(memories_fts), m.is_permanent DESC, m.created_at DESC"@
}

/// Builds `fts_search_sql_text`.
pub fn fts_search_sql(n: u64) -> (r: String)
    requires
        n < u64::MAX,
    ensures
        r@ == fts_search_sql_text(n as nat),
{
    let mut v: Vec<char> = Vec::new();
    append_str(
        &mut v,
        "SELECT m.id, m.project_id, m.content, m.tags, m.metadata, m.is_permanent, m.created_at, m.tokens_estimated FROM memories_fts fts JOIN memories m ON fts.id = m.id WHERE m.project_id IN (",
    );
    push_placeholders(&mut v, n);
    append_str(&mut v, ") AND memories_fts MATCH ");
    push_param(&mut v, n + 1);
    append_str(&mut v, " ORDER BY bm25(memories_fts), m.is_permanent DESC, m.created_at DESC");
    assert(v@ =~= fts_search_sql_text(n as nat));
    string_of(&v)
}

/// A substring search over the lower-cased text and tags of the memories of
/// `n` projects; the pattern is parameters `n + 1` and `n + 2`.
pub open spec fn like_search_sql_text(n: nat) -> Seq<char> {
    "SELECT "@ + memory_columns() + " FROM memories WHERE project_id IN ("@ + placeholders(n)
        + ") AND (LOWER(content) LIKE "@ + param(n + 1) + " OR LOWER(tags) LIKE "@ + param(n + 2)
        + ") ORDER BY is_permanent DESC, created_at DESC"@
}

/// Builds `like_search_sql_text`.
pub fn like_search_sql(n: u64) -> (r: String)
    requires
        n < u64::MAX - 1,
    ensures
        r@ == like_search_sql_text(n as nat),
{
    let mut v: Vec<char> = Vec::new();
    append_str(&mut v, "SELECT ");
    append_str(
        &mut v,
        "id, project_id, content, tags, metadata, is_permanent, created_at, tokens_estimated",
    );
    append_str(&mut v, " FROM memories WHERE project_id IN (");
    push_placeholders(&mut v, n);
    append_str(&mut v, ") AND (LOWER(content) LIKE ");
    push_param(&mut v, n + 1);
    append_str(&mut v, " OR LOWER(tags) LIKE ");
    push_param(&mut v, n + 2);
    append_str(&mut v, ") ORDER BY is_permanent DESC, created_at DESC");
    assert(v@ =~= like_search_sql_text(n as nat));
    string_of(&v)
}

/// Deletes the projects whose id is parameter 1 or whose name is it up to
/// ASCII letter case; the row of the global project is never matched.
pub open spec fn delete_project_sql_text() -> Seq<char> {
    "DELETE FROM projects WHERE id != 'global' AND (id = ?1 OR name = ?1 COLLATE NOCASE)"@
}

/// Builds `delete_project_sql_text`.
pub fn delete_project_sql() -> (r: String)
    ensures
        r@ == delete_project_sql_text(),
{
    "DELETE FROM projects WHERE id != 'global' AND (id = ?1 OR name = ?1 COLLATE NOCASE)".to_string()
}

/// Deletes the memories with `n` given ids.
pub open spec fn delete_memories_sql_text(n: nat) -> Seq<char> {
    "DELETE FROM memories WHERE id IN ("@ + placeholders(n) + ")"@
}

/// Builds `delete_memories_sql_text`.
pub fn delete_memories_sql(n: u64) -> (r: String)
    ensures
        r@ == delete_memories_sql_text(n as nat),
{
    let mut v: Vec<char> = Vec::new();
    append_str(&mut v, "DELETE FROM memories WHERE id IN (");
    push_placeholders(&mut v, n);
    append_str(&mut v, ")");
    assert(v@ =~= delete_memories_sql_text(n as nat));
    string_of(&v)
}

/// Sets the permanence (parameter `n + 1`) of the memories with `n` given
/// ids.
pub open spec fn toggle_permanence_sql_text(n: nat) -> Seq<char> {
    "UPDATE memories SET is_permanent = "@ + param(n + 1) + " WHERE id IN ("@ + placeholders(n)
        + ")"@
}

/// Builds `toggle_permanence_sql_text`.
pub fn toggle_permanence_sql(n: u64) -> (r: String)
    requires
        n < u64::MAX,
    ensures
        r@ == toggle_permanence_sql_text(n as nat),
{
    let mut v: Vec<char> = Vec::new();
    append_str(&mut v, "UPDATE memories SET is_permanent = ");
    push_param(&mut v, n + 1);
    append_str(&mut v, " WHERE id IN (");
    push_placeholders(&mut v, n);
    append_str(&mut v, ")");
    assert(v@ =~= toggle_permanence_sql_text(n as nat));
    string_of(&v)
}

/// Moves the memories with `n` given ids to the project given as parameter
/// `n + 1`.
pub open spec fn move_memories_sql_text(n: nat) -> Seq<char> {
    "UPDATE memories SET project_id = "@ + param(n + 1) + " WHERE id IN ("@ + placeholders(n)
        + ")"@
}

/// Builds `move_memories_sql_text`.
pub fn move_memories_sql(n: u64) -> (r: String)
    requires
        n < u64::MAX,
    ensures
        r@ == move_memories_sql_text(n as nat),
{
    let mut v: Vec<char> = Vec::new();
    append_str(&mut v, "UPDATE memories SET project_id = ");
    push_param(&mut v, n + 1);
    append_str(&mut v, " WHERE id IN (");
    push_placeholders(&mut v, n);
    append_str(&mut v, ")");
    assert(v@ =~= move_memories_sql_text(n as nat));
    string_of(&v)
}

} // verus!

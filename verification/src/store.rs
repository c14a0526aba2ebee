//! The records of the memory store and the decisions taken around its
//! queries: which projects a read covers, which stored memories a new one
//! replaces, what is filtered out, what is deleted, and how projects link.
use vstd::prelude::*;

use crate::decimal::{
    dec_digits, dec_int, lemma_dec_digits_injective, push_decimal, push_decimal_i64,
};
use crate::similarity::{copy_chars, is_similar_or_replacement, similar, strings_view};
use crate::tags::{build_fts5_query, content_tag_list, extract_tags_from_content, fts5_query};
use crate::text::{
    append_chars, append_str, chars_eq, chars_of, eq_ignore_ascii_case,
    eq_ignore_ascii_case_exec, lowercase, str_lowercase, string_of, trim_exec, trim_ws, utf8_len,
    utf8_len_exec, TrimKind,
};

verus! {

broadcast use vstd::seq_lib::group_seq_properties;

/// A registered project.
#[derive(Clone, Debug)]
pub struct ProjectRecord {
    pub id: String,
    pub name: String,
    pub path: String,
    pub created_at: String,
    pub last_active: String,
    pub memory_count: i64,
    pub linked_project_ids: Vec<String>,
}

/// A stored memory. `metadata` holds the JSON text of its metadata object.
#[derive(Clone, Debug)]
pub struct MemoryRecord {
    pub id: String,
    pub project_id: String,
    pub content: String,
    pub created_at: String,
    pub tags: Vec<String>,
    pub metadata: String,
    pub tokens_estimated: i64,
    pub is_permanent: bool,
}

/// One memory to add. `metadata` holds the JSON text of a metadata object.
#[derive(Clone, Debug)]
pub struct BatchMemoryItem {
    pub content: String,
    pub tags: Option<Vec<String>>,
    pub metadata: Option<String>,
    pub is_permanent: Option<bool>,
}

/// A whole-store backup.
#[derive(Clone, Debug)]
pub struct ExportBackup {
    pub version: String,
    pub exported_at: String,
    pub projects: Vec<ProjectRecord>,
    pub memories: Vec<MemoryRecord>,
}

/// Usage figures of the store.
#[derive(Clone, Debug)]
pub struct MemoryStats {
    pub total_projects: i64,
    pub total_memories: i64,
    pub permanent_memories: i64,
    pub short_term_memories: i64,
    pub db_size_bytes: u64,
}

/// The id of the global project, which holds rules for every project.
pub open spec fn global_id() -> Seq<char> {
    "global"@
}

/// The format version written into backups.
pub fn backup_version() -> (r: String)
    ensures
        r@ == "1.0.0"@,
{
    "1.0.0".to_string()
}

/// `ids` followed by each id of `extra` that is not already present, in
/// order.
pub open spec fn add_absent(ids: Seq<Seq<char>>, extra: Seq<Seq<char>>) -> Seq<Seq<char>>
    decreases extra.len(),
{
    if extra.len() == 0 {
        ids
    } else {
        let p = add_absent(ids, extra.drop_last());
        if p.contains(extra.last()) {
            p
        } else {
            p.push(extra.last())
        }
    }
}

/// The projects a read covers: only the global project for a global read;
/// otherwise the target, the global project, then each linked project not
/// yet listed.
pub open spec fn scope_of(is_global: bool, target: Seq<char>, linked: Seq<Seq<char>>) -> Seq<
    Seq<char>,
> {
    if is_global {
        seq![global_id()]
    } else {
        add_absent(seq![target, global_id()], linked)
    }
}

fn contains_string(list: &Vec<String>, s: &String) -> (r: bool)
    ensures
        r == strings_view(list@).contains(s@),
{
    let mut i: usize = 0;
    while i < list.len()
        invariant
            i <= list.len(),
            forall|k: int| 0 <= k < i ==> list@[k]@ != s@,
        decreases list.len() - i,
    {
        if list[i] == *s {
            assert(strings_view(list@)[i as int] == s@);
            return true;
        }
        i = i + 1;
    }
    assert forall|k: int| 0 <= k < strings_view(list@).len() implies strings_view(list@)[k]
        != s@ by {
        assert(strings_view(list@)[k] == list@[k]@);
    }
    false
}

/// The project ids that a read of memories covers (see `scope_of`).
pub fn memory_scope(is_global: bool, target_id: &str, linked: Vec<String>) -> (r: Vec<String>)
    ensures
        strings_view(r@) == scope_of(is_global, target_id@, strings_view(linked@)),
{
    if is_global {
        let r = vec!["global".to_string()];
        assert(strings_view(r@) =~= seq![global_id()]);
        return r;
    }
    let mut ids: Vec<String> = vec![target_id.to_string(), "global".to_string()];
    let ghost lv = strings_view(linked@);
    let n0 = linked.len();
    assert(lv.len() == n0);
    assert(strings_view(ids@) =~= seq![target_id@, global_id()]);
    assert(lv.take(0) =~= Seq::<Seq<char>>::empty());
    let mut rest = linked;
    let mut i: usize = 0;
    while rest.len() > 0
        invariant
            i + rest.len() == lv.len(),
            lv.len() <= usize::MAX,
            strings_view(rest@) == lv.skip(i as int),
            strings_view(ids@) == add_absent(seq![target_id@, global_id()], lv.take(i as int)),
        decreases rest.len(),
    {
        let lid = rest.remove(0);
        assert(lid@ == lv[i as int]);
        assert(lv.take(i as int + 1).drop_last() =~= lv.take(i as int));
        assert(strings_view(rest@) =~= lv.skip(i as int + 1));
        if !contains_string(&ids, &lid) {
            let ghost prev = strings_view(ids@);
            ids.push(lid);
            assert(strings_view(ids@) =~= prev.push(lv[i as int]));
        }
        i = i + 1;
    }
    assert(lv.take(i as int) =~= lv);
    ids
}

/// The search to run for a query: the full-text query and the fallback
/// `LIKE` pattern.
#[derive(Clone, Debug)]
pub struct SearchPlan {
    pub fts_query: String,
    pub like_pattern: String,
}

/// The search for a query: none when the query is absent or blank;
/// otherwise the full-text query of the trimmed query and the pattern
/// `%`, the lower-cased trimmed query, `%`.
pub fn plan_memory_query(query: Option<&str>) -> (r: Option<SearchPlan>)
    ensures
        match query {
            Some(q) if trim_ws(q@).len() > 0 => r matches Some(p) && p.fts_query@ == fts5_query(
                trim_ws(q@),
            ) && p.like_pattern@ == seq!['%'] + str_lowercase(trim_ws(q@)) + seq!['%'],
            _ => r is None,
        },
{
    match query {
        Some(q) => {
            let qv = chars_of(q);
            let clean = trim_exec(&qv, TrimKind::Whitespace);
            if clean.len() == 0 {
                return None;
            }
            let clean_s = string_of(&clean);
            let fts_query = build_fts5_query(clean_s.as_str());
            let lower = lowercase(&clean);
            let mut pat: Vec<char> = Vec::new();
            pat.push('%');
            append_chars(&mut pat, &lower);
            pat.push('%');
            assert(pat@ =~= seq!['%'] + str_lowercase(trim_ws(q@)) + seq!['%']);
            let like_pattern = string_of(&pat);
            Some(SearchPlan { fts_query, like_pattern })
        },
        None => None,
    }
}

/// A memory passes the filters: its permanence matches when one is asked
/// for, and when a non-empty tag filter is given it has one of those tags.
pub open spec fn passes_filters(
    m: MemoryRecord,
    is_permanent: Option<bool>,
    tags_filter: Option<Seq<Seq<char>>>,
) -> bool {
    &&& (is_permanent matches Some(p) ==> m.is_permanent == p)
    &&& (tags_filter matches Some(f) ==> (f.len() > 0 ==> exists|i: int|
        0 <= i < f.len() && #[trigger] strings_view(m.tags@).contains(f[i])))
}

/// The memories that pass the filters, in order.
pub open spec fn passing(
    records: Seq<MemoryRecord>,
    is_permanent: Option<bool>,
    tags_filter: Option<Seq<Seq<char>>>,
) -> Seq<MemoryRecord> {
    records.filter(|m: MemoryRecord| passes_filters(m, is_permanent, tags_filter))
}

/// The memories that pass the filters, in order, at most `limit` of them.
pub open spec fn filtered_memories(
    records: Seq<MemoryRecord>,
    is_permanent: Option<bool>,
    tags_filter: Option<Seq<Seq<char>>>,
    limit: nat,
) -> Seq<MemoryRecord> {
    let kept = passing(records, is_permanent, tags_filter);
    if kept.len() <= limit {
        kept
    } else {
        kept.take(limit as int)
    }
}

/// The view of an optional list of strings.
pub open spec fn opt_strings_view(o: Option<Vec<String>>) -> Option<Seq<Seq<char>>> {
    match o {
        Some(v) => Some(strings_view(v@)),
        None => None,
    }
}

fn passes_filters_exec(
    m: &MemoryRecord,
    is_permanent: Option<bool>,
    tags_filter: &Option<Vec<String>>,
) -> (r: bool)
    ensures
        r == passes_filters(*m, is_permanent, opt_strings_view(*tags_filter)),
{
    match is_permanent {
        Some(p) => {
            if m.is_permanent != p {
                return false;
            }
        },
        None => {
        },
    }
    match tags_filter {
        Some(f) => {
            if f.len() > 0 {
                let mut i: usize = 0;
                while i < f.len()
                    invariant
                        i <= f.len(),
                        f.len() > 0,
                        opt_strings_view(*tags_filter) == Some(strings_view(f@)),
                        is_permanent matches Some(p) ==> m.is_permanent == p,
                        forall|k: int|
                            0 <= k < i ==> !#[trigger] strings_view(m.tags@).contains(
                                strings_view(f@)[k],
                            ),
                    decreases f.len() - i,
                {
                    assert(strings_view(f@)[i as int] == f@[i as int]@);
                    if contains_string(&m.tags, &f[i]) {
                        assert(strings_view(m.tags@).contains(strings_view(f@)[i as int]));
                        return true;
                    }
                    i = i + 1;
                }
                return false;
            }
            true
        },
        None => true,
    }
}

/// The memories that pass the filters, in order, at most `limit` of them
/// (see `filtered_memories`).
pub fn filter_memories(
    records: Vec<MemoryRecord>,
    is_permanent: Option<bool>,
    tags_filter: Option<Vec<String>>,
    limit: usize,
) -> (r: Vec<MemoryRecord>)
    ensures
        r@ == filtered_memories(records@, is_permanent, opt_strings_view(tags_filter), limit as nat),
{
    let ghost all = records@;
    let ghost tf = opt_strings_view(tags_filter);
    let ghost f = |m: MemoryRecord| passes_filters(m, is_permanent, tf);
    let n0 = records.len();
    assert(all.len() == n0);
    let mut rest = records;
    let mut kept: Vec<MemoryRecord> = Vec::new();
    let mut i: usize = 0;
    assert(all.take(0) =~= Seq::<MemoryRecord>::empty());
    while rest.len() > 0
        invariant
            i + rest.len() == all.len(),
            all.len() <= usize::MAX,
            rest@ == all.skip(i as int),
            tf == opt_strings_view(tags_filter),
            f == (|m: MemoryRecord| passes_filters(m, is_permanent, tf)),
            kept@ == all.take(i as int).filter(f),
        decreases rest.len(),
    {
        let m = rest.remove(0);
        let ghost prev = kept@;
        assert(m == all[i as int]);
        assert(all.take(i as int + 1).drop_last() =~= all.take(i as int));
        assert(all.take(i as int + 1).last() == m);
        assert(rest@ =~= all.skip(i as int + 1));
        let pass = passes_filters_exec(&m, is_permanent, &tags_filter);
        assert(pass == f(m));
        if pass {
            kept.push(m);
        }
        proof {
            reveal_with_fuel(Seq::filter, 1);
        }
        i = i + 1;
    }
    assert(all.take(i as int) =~= all);
    kept.truncate(limit);
    kept
}

/// The token estimate of a memory's text: a quarter of its byte length, at
/// least 1 (and at most `i64::MAX`).
pub open spec fn token_estimate(content: Seq<char>) -> int {
    let q = utf8_len(content) / 4;
    if q < 1 {
        1
    } else if q > i64::MAX {
        i64::MAX as int
    } else {
        q as int
    }
}

fn token_estimate_chars(content: &Vec<char>) -> (r: i64)
    ensures
        r == token_estimate(content@),
{
    let n = utf8_len_exec(content);
    let q = n / 4;
    if q < 1 {
        1
    } else if q > 9223372036854775807u128 {
        9223372036854775807i64
    } else {
        q as i64
    }
}

/// The token estimate of a text (see `token_estimate`).
pub fn estimate_tokens(content: &str) -> (r: i64)
    ensures
        r == token_estimate(content@),
{
    let v = chars_of(content);
    token_estimate_chars(&v)
}

/// The id of a new memory: the project id, the time in milliseconds and the
/// item's 1-based position, joined by `_`.
pub open spec fn memory_id_of(target: Seq<char>, millis: int, ordinal: nat) -> Seq<char> {
    target + seq!['_'] + dec_int(millis) + seq!['_'] + dec_digits(ordinal)
}

/// Builds the id of a new memory (see `memory_id_of`).
pub fn new_memory_id(target: &str, millis: i64, ordinal: u64) -> (r: String)
    ensures
        r@ == memory_id_of(target@, millis as int, ordinal as nat),
{
    let mut v: Vec<char> = Vec::new();
    append_str(&mut v, target);
    v.push('_');
    push_decimal_i64(&mut v, millis);
    v.push('_');
    push_decimal(&mut v, ordinal);
    assert(v@ =~= memory_id_of(target@, millis as int, ordinal as nat));
    string_of(&v)
}

/// The id of the first stored memory, in order, that the text restates or
/// replaces.
pub open spec fn first_similar(existing: Seq<MemoryRecord>, content: Seq<char>) -> Option<
    Seq<char>,
>
    decreases existing.len(),
{
    if existing.len() == 0 {
        None
    } else if similar(content, existing[0].content@) {
        Some(existing[0].id@)
    } else {
        first_similar(existing.drop_first(), content)
    }
}

fn first_similar_exec(existing: &Vec<MemoryRecord>, content: &String) -> (r: Option<String>)
    ensures
        match r {
            Some(id) => first_similar(existing@, content@) == Some(id@),
            None => first_similar(existing@, content@) is None,
        },
{
    let mut i: usize = 0;
    assert(existing@.skip(0) =~= existing@);
    while i < existing.len()
        invariant
            i <= existing.len(),
            first_similar(existing@, content@) == first_similar(existing@.skip(i as int), content@),
        decreases existing.len() - i,
    {
        assert(existing@.skip(i as int)[0] == existing@[i as int]);
        assert(existing@.skip(i as int).drop_first() =~= existing@.skip(i as int + 1));
        if is_similar_or_replacement(content.as_str(), existing[i].content.as_str()) {
            let id = existing[i].id.clone();
            return Some(id);
        }
        i = i + 1;
    }
    assert(existing@.skip(i as int) =~= Seq::<MemoryRecord>::empty());
    None
}

/// A planned write of one new memory.
#[derive(Clone, Debug)]
pub struct PlannedMemory {
    /// The stored memory this one replaces, if any.
    pub replaces: Option<String>,
    /// The 1-based position of the item in the batch.
    pub ordinal: u64,
    pub content: String,
    pub tags: Vec<String>,
    pub metadata: String,
    pub is_permanent: bool,
    pub tokens_estimated: i64,
}

/// The plain-value form of a planned write.
pub struct PlanView {
    pub replaces: Option<Seq<char>>,
    pub ordinal: nat,
    pub content: Seq<char>,
    pub tags: Seq<Seq<char>>,
    pub metadata: Seq<char>,
    pub is_permanent: bool,
    pub tokens_estimated: int,
}

impl View for PlannedMemory {
    type V = PlanView;

    open spec fn view(&self) -> PlanView {
        PlanView {
            replaces: match self.replaces {
                Some(id) => Some(id@),
                None => None,
            },
            ordinal: self.ordinal as nat,
            content: self.content@,
            tags: strings_view(self.tags@),
            metadata: self.metadata@,
            is_permanent: self.is_permanent,
            tokens_estimated: self.tokens_estimated as int,
        }
    }
}

/// The views of planned writes.
pub open spec fn plan_views(s: Seq<PlannedMemory>) -> Seq<PlanView> {
    s.map_values(|p: PlannedMemory| p@)
}

/// The planned write for one item at 1-based position `ordinal`: the
/// trimmed text; the given tags when there are some, else the tags drawn
/// from the text; the given metadata or `{}`; not permanent unless asked;
/// the token estimate; and the first stored memory it restates, which it
/// replaces.
pub open spec fn plan_item(existing: Seq<MemoryRecord>, item: BatchMemoryItem, ordinal: nat) -> PlanView {
    let content = trim_ws(item.content@);
    PlanView {
        replaces: first_similar(existing, content),
        ordinal: ordinal,
        content: content,
        tags: match item.tags {
            Some(t) if t@.len() > 0 => strings_view(t@),
            _ => content_tag_list(content),
        },
        metadata: match item.metadata {
            Some(m) => m@,
            None => "{}"@,
        },
        is_permanent: match item.is_permanent {
            Some(p) => p,
            None => false,
        },
        tokens_estimated: token_estimate(content),
    }
}

/// The writes planned for a batch: one per item whose trimmed text is not
/// empty, in order; items are compared with the memories stored before the
/// batch, not with each other.
pub open spec fn upsert_plan(existing: Seq<MemoryRecord>, items: Seq<BatchMemoryItem>) -> Seq<
    PlanView,
>
    decreases items.len(),
{
    if items.len() == 0 {
        Seq::empty()
    } else {
        let p = upsert_plan(existing, items.drop_last());
        if trim_ws(items.last().content@).len() == 0 {
            p
        } else {
            p.push(plan_item(existing, items.last(), items.len()))
        }
    }
}

/// Plans the writes for a batch of new memories (see `upsert_plan`).
pub fn plan_memory_upserts(existing: &Vec<MemoryRecord>, items: Vec<BatchMemoryItem>) -> (r: Vec<
    PlannedMemory,
>)
    requires
        items.len() < u64::MAX,
    ensures
        plan_views(r@) == upsert_plan(existing@, items@),
{
    let ghost all = items@;
    let n0 = items.len();
    assert(all.len() == n0);
    let mut rest = items;
    let mut out: Vec<PlannedMemory> = Vec::new();
    let mut i: usize = 0;
    assert(all.take(0) =~= Seq::<BatchMemoryItem>::empty());
    assert(plan_views(out@) =~= upsert_plan(existing@, all.take(0)));
    while rest.len() > 0
        invariant
            i + rest.len() == all.len(),
            all.len() < u64::MAX,
            all.len() <= usize::MAX,
            rest@ == all.skip(i as int),
            plan_views(out@) == upsert_plan(existing@, all.take(i as int)),
        decreases rest.len(),
    {
        let item = rest.remove(0);
        assert(item == all[i as int]);
        assert(all.take(i as int + 1).drop_last() =~= all.take(i as int));
        assert(all.take(i as int + 1).last() == item);
        assert(rest@ =~= all.skip(i as int + 1));
        let raw = chars_of(item.content.as_str());
        let trimmed = trim_exec(&raw, TrimKind::Whitespace);
        if trimmed.len() > 0 {
            let content = string_of(&trimmed);
            let tags = match item.tags {
                Some(t) => {
                    if t.len() > 0 {
                        t
                    } else {
                        extract_tags_from_content(content.as_str())
                    }
                },
                None => extract_tags_from_content(content.as_str()),
            };
            let metadata = match item.metadata {
                Some(m) => m,
                None => "{}".to_string(),
            };
            let is_permanent = match item.is_permanent {
                Some(p) => p,
                None => false,
            };
            let tokens_estimated = token_estimate_chars(&trimmed);
            let replaces = first_similar_exec(existing, &content);
            let ghost prev = plan_views(out@);
            let planned = PlannedMemory {
                replaces,
                ordinal: (i as u64) + 1,
                content,
                tags,
                metadata,
                is_permanent,
                tokens_estimated,
            };
            assert(planned@ == plan_item(existing@, all[i as int], (i + 1) as nat));
            out.push(planned);
            assert(plan_views(out@) =~= prev.push(plan_item(existing@, all[i as int], (i + 1) as nat)));
        }
        i = i + 1;
    }
    assert(all.take(i as int) =~= all);
    out
}

/// The result of merging an edit into a stored memory.
#[derive(Clone, Debug)]
pub struct MemoryUpdate {
    pub content: String,
    pub tags: Vec<String>,
    pub metadata: String,
    pub is_permanent: bool,
    pub tokens_estimated: i64,
}

/// Merges an edit into a stored memory: each field given replaces the
/// stored one, the text is trimmed (also when kept), and the token
/// estimate follows the new text.
pub fn merge_memory_update(
    existing: MemoryRecord,
    content: Option<&str>,
    tags: Option<Vec<String>>,
    metadata: Option<String>,
    is_permanent: Option<bool>,
) -> (r: MemoryUpdate)
    ensures
        r.content@ == trim_ws(
            match content {
                Some(c) => c@,
                None => existing.content@,
            },
        ),
        r.tags@ == match tags {
            Some(t) => t@,
            None => existing.tags@,
        },
        r.metadata@ == match metadata {
            Some(m) => m@,
            None => existing.metadata@,
        },
        r.is_permanent == match is_permanent {
            Some(p) => p,
            None => existing.is_permanent,
        },
        r.tokens_estimated == token_estimate(r.content@),
{
    let raw = match content {
        Some(c) => chars_of(c),
        None => chars_of(existing.content.as_str()),
    };
    let trimmed = trim_exec(&raw, TrimKind::Whitespace);
    let tokens_estimated = token_estimate_chars(&trimmed);
    let new_content = string_of(&trimmed);
    let new_tags = match tags {
        Some(t) => t,
        None => existing.tags,
    };
    let new_metadata = match metadata {
        Some(m) => m,
        None => existing.metadata,
    };
    let new_permanent = match is_permanent {
        Some(p) => p,
        None => existing.is_permanent,
    };
    MemoryUpdate {
        content: new_content,
        tags: new_tags,
        metadata: new_metadata,
        is_permanent: new_permanent,
        tokens_estimated,
    }
}

/// The write that follows a project lookup.
#[derive(Clone, Copy, Debug, PartialEq, Eq, Structural)]
pub enum ProjectWrite {
    /// Refresh the stored row (name, path, last activity, memory count).
    UpdateExisting,
    /// Insert a new row.
    InsertNew,
    /// Write nothing; the project is reported but not registered.
    NoWrite,
}

/// Decides the project record for a detected project and the write that
/// goes with it. A stored project keeps its id, creation time and links and
/// takes the detected name and path, the time `now` and the counted
/// memories; an unknown project gets a fresh record dated `now` with no
/// memories and no links, inserted only when `create_if_absent`.
pub fn plan_project(
    existing: Option<ProjectRecord>,
    detected: crate::project::DetectedProject,
    now: String,
    create_if_absent: bool,
    memory_count: i64,
) -> (r: (ProjectRecord, ProjectWrite))
    ensures
        match existing {
            Some(e) => {
                &&& r.1 is UpdateExisting
                &&& r.0.id == e.id
                &&& r.0.created_at == e.created_at
                &&& r.0.linked_project_ids == e.linked_project_ids
                &&& r.0.name == detected.name
                &&& r.0.path == detected.path
                &&& r.0.last_active == now
                &&& r.0.memory_count == memory_count
            },
            None => {
                &&& (if create_if_absent {
                    r.1 is InsertNew
                } else {
                    r.1 is NoWrite
                })
                &&& r.0.id == detected.id
                &&& r.0.name == detected.name
                &&& r.0.path == detected.path
                &&& r.0.created_at@ == now@
                &&& r.0.last_active@ == now@
                &&& r.0.memory_count == 0
                &&& r.0.linked_project_ids@.len() == 0
            },
        },
{
    match existing {
        Some(e) => {
            let proj = ProjectRecord {
                id: e.id,
                name: detected.name,
                path: detected.path,
                created_at: e.created_at,
                last_active: now,
                memory_count,
                linked_project_ids: e.linked_project_ids,
            };
            (proj, ProjectWrite::UpdateExisting)
        },
        None => {
            let created = now.clone();
            let proj = ProjectRecord {
                id: detected.id,
                name: detected.name,
                path: detected.path,
                created_at: created,
                last_active: now,
                memory_count: 0,
                linked_project_ids: Vec::new(),
            };
            if create_if_absent {
                (proj, ProjectWrite::InsertNew)
            } else {
                (proj, ProjectWrite::NoWrite)
            }
        },
    }
}

/// The first step of resolving which project a request targets.
#[derive(Clone, Debug)]
pub enum ResolveStep {
    /// The global project.
    Global,
    /// Look the project up by id or name (case-insensitive name).
    Lookup(String),
    /// Detect the project from the workspace.
    Detect,
}

/// Decides the first step of resolving the target project: the global
/// project for a global request or an override that reads `global` in any
/// ASCII letter case (trimmed); a lookup of a non-blank trimmed override;
/// else detection from the workspace.
pub fn resolve_first_step(is_global: bool, project_override: Option<&str>) -> (r: ResolveStep)
    ensures
        is_global ==> r is Global,
        !is_global ==> match project_override {
            Some(p) => if eq_ignore_ascii_case(trim_ws(p@), global_id()) {
                r is Global
            } else if trim_ws(p@).len() > 0 {
                r matches ResolveStep::Lookup(t) && t@ == trim_ws(p@)
            } else {
                r is Detect
            },
            None => r is Detect,
        },
{
    if is_global {
        return ResolveStep::Global;
    }
    match project_override {
        Some(p) => {
            let pv = chars_of(p);
            let trimmed = trim_exec(&pv, TrimKind::Whitespace);
            let g = chars_of("global");
            if eq_ignore_ascii_case_exec(&trimmed, &g) {
                return ResolveStep::Global;
            }
            if trimmed.len() > 0 {
                return ResolveStep::Lookup(string_of(&trimmed));
            }
            ResolveStep::Detect
        },
        None => ResolveStep::Detect,
    }
}

/// The project id when lookup by override found nothing: the detected
/// project, else the most recently active other project, else `global`.
pub fn resolve_fallback(detected: Option<String>, latest_other: Option<String>) -> (r: String)
    ensures
        r@ == match detected {
            Some(d) => d@,
            None => match latest_other {
                Some(l) => l@,
                None => global_id(),
            },
        },
{
    match detected {
        Some(d) => d,
        None => match latest_other {
            Some(l) => l,
            None => "global".to_string(),
        },
    }
}

/// The display name of the global project.
pub open spec fn global_name() -> Seq<char> {
    "Global User Memories"@
}

/// The display name given to the global project when the store is created.
pub fn global_project_name() -> (r: String)
    ensures
        r@ == global_name(),
{
    "Global User Memories".to_string()
}

/// An identifier that names the global project: its id exactly, or its
/// name up to ASCII letter case (as SQLite's `NOCASE` compares names).
pub open spec fn names_global(t: Seq<char>) -> bool {
    t == global_id() || eq_ignore_ascii_case(t, global_name())
}

/// The project identifiers a deletion acts on: each identifier trimmed,
/// in order, without those that name the global project.
pub open spec fn deletable(idents: Seq<Seq<char>>) -> Seq<Seq<char>>
    decreases idents.len(),
{
    if idents.len() == 0 {
        Seq::empty()
    } else {
        let p = deletable(idents.drop_last());
        let t = trim_ws(idents.last());
        if names_global(t) {
            p
        } else {
            p.push(t)
        }
    }
}

/// The trimmed identifiers of the projects to delete; none of them names
/// the global project (see `deletable`).
pub fn deletable_project_identifiers(idents: Vec<String>) -> (r: Vec<String>)
    ensures
        strings_view(r@) == deletable(strings_view(idents@)),
{
    let ghost all = strings_view(idents@);
    let n0 = idents.len();
    assert(all.len() == n0);
    let mut rest = idents;
    let mut out: Vec<String> = Vec::new();
    let mut i: usize = 0;
    assert(all.take(0) =~= Seq::<Seq<char>>::empty());
    let g = chars_of("global");
    let gname = chars_of("Global User Memories");
    while rest.len() > 0
        invariant
            i + rest.len() == all.len(),
            all.len() <= usize::MAX,
            strings_view(rest@) == all.skip(i as int),
            g@ == global_id(),
            gname@ == global_name(),
            strings_view(out@) == deletable(all.take(i as int)),
        decreases rest.len(),
    {
        let ident = rest.remove(0);
        assert(ident@ == all[i as int]);
        assert(all.take(i as int + 1).drop_last() =~= all.take(i as int));
        assert(strings_view(rest@) =~= all.skip(i as int + 1));
        let iv = chars_of(ident.as_str());
        let t = trim_exec(&iv, TrimKind::Whitespace);
        if !chars_eq(&t, &g) && !eq_ignore_ascii_case_exec(&t, &gname) {
            let ghost prev = strings_view(out@);
            out.push(string_of(&t));
            assert(strings_view(out@) =~= prev.push(trim_ws(all[i as int])));
        }
        i = i + 1;
    }
    assert(all.take(i as int) =~= all);
    out
}

/// Clearing the memories of a target is allowed unless the target is the
/// global project and the call did not ask for the global memories.
pub fn clear_allowed(is_global: bool, target_id: &str) -> (r: bool)
    ensures
        r == (is_global || target_id@ != global_id()),
{
    if is_global {
        return true;
    }
    let t = chars_of(target_id);
    let g = chars_of("global");
    !chars_eq(&t, &g)
}

/// The error for clearing the global project without asking for it.
pub fn global_clear_refused_message() -> (r: String)
    ensures
        r@ == "The global project is protected: set is_global=true to clear global memories"@,
{
    "The global project is protected: set is_global=true to clear global memories".to_string()
}

/// How many short-term memories of a project are kept after each addition.
pub const RETENTION_MAX_MEMORIES: usize = 50;

/// After how many days short-term memories expire.
pub const RETENTION_EXPIRE_DAYS: i64 = 30;

/// How many memories a read returns when the caller gives no limit.
pub const DEFAULT_READ_LIMIT: usize = 100;

/// The short-term memory ids to delete beyond the newest `max_memories`:
/// given ids newest first, all after the first `max_memories`.
pub fn excess_memory_ids(ids: Vec<String>, max_memories: usize) -> (r: Vec<String>)
    ensures
        ids.len() > max_memories ==> r@ == ids@.skip(max_memories as int),
        ids.len() <= max_memories ==> r@.len() == 0,
{
    let mut out: Vec<String> = Vec::new();
    if ids.len() <= max_memories {
        return out;
    }
    let ghost all = ids@;
    let mut rest = ids;
    let mut k: usize = 0;
    while k < max_memories
        invariant
            k <= max_memories,
            max_memories < all.len(),
            rest@ == all.skip(k as int),
        decreases max_memories - k,
    {
        rest.remove(0);
        assert(rest@ =~= all.skip(k as int + 1));
        k = k + 1;
    }
    rest
}

/// The links of a project after linking it to `target`: `target` is added
/// at the end unless it is the project itself, the global project, or
/// already linked.
pub open spec fn linked_after(links: Seq<Seq<char>>, source: Seq<char>, target: Seq<char>) -> Seq<
    Seq<char>,
> {
    if target != source && target != global_id() && !links.contains(target) {
        links.push(target)
    } else {
        links
    }
}

/// Adds a link from `source_id` to `target_id` (see `linked_after`).
pub fn add_link(links: Vec<String>, source_id: &str, target_id: String) -> (r: Vec<String>)
    ensures
        strings_view(r@) == linked_after(strings_view(links@), source_id@, target_id@),
{
    let sv = chars_of(source_id);
    let tv = chars_of(target_id.as_str());
    let g = chars_of("global");
    let mut out = links;
    if !chars_eq(&tv, &sv) && !chars_eq(&tv, &g) && !contains_string(&out, &target_id) {
        let ghost prev = strings_view(out@);
        out.push(target_id);
        assert(strings_view(out@) =~= prev.push(tv@));
    }
    out
}

/// Linking never adds the project itself or the global project as a link,
/// keeps every existing link, lists the target afterwards when it was a
/// valid target, and adds no duplicate: linking twice is linking once.
pub proof fn lemma_link_laws(links: Seq<Seq<char>>, source: Seq<char>, target: Seq<char>)
    ensures
        forall|x: Seq<char>|
            #[trigger] linked_after(links, source, target).contains(x) ==> links.contains(x) || x
                == target,
        (target != source && target != global_id()) ==> linked_after(
            links,
            source,
            target,
        ).contains(target),
        !links.contains(source) ==> !linked_after(links, source, target).contains(source),
        !links.contains(global_id()) ==> !linked_after(links, source, target).contains(
            global_id(),
        ),
        forall|x: Seq<char>| links.contains(x) ==> #[trigger] linked_after(
            links,
            source,
            target,
        ).contains(x),
        links.no_duplicates() ==> linked_after(links, source, target).no_duplicates(),
        linked_after(linked_after(links, source, target), source, target) == linked_after(
            links,
            source,
            target,
        ),
{
    let after = linked_after(links, source, target);
    if target != source && target != global_id() && !links.contains(target) {
        assert(after[links.len() as int] == target);
        assert forall|x: Seq<char>| after.contains(x) implies links.contains(x) || x == target by {
            let k = choose|k: int| 0 <= k < after.len() && after[k] == x;
            if k < links.len() {
                assert(links[k] == x);
            }
        }
        assert forall|x: Seq<char>| links.contains(x) implies after.contains(x) by {
            let k = choose|k: int| 0 <= k < links.len() && links[k] == x;
            assert(after[k] == x);
        }
    }
}

/// No identifier passed on for deletion names the global project: none is
/// its id, and none equals its name up to ASCII letter case.
pub proof fn lemma_global_never_deleted(idents: Seq<Seq<char>>)
    ensures
        forall|k: int|
            0 <= k < deletable(idents).len() ==> !names_global(#[trigger] deletable(idents)[k]),
    decreases idents.len(),
{
    if idents.len() > 0 {
        lemma_global_never_deleted(idents.drop_last());
        let p = deletable(idents.drop_last());
        let t = trim_ws(idents.last());
        if !names_global(t) {
            assert forall|k: int| 0 <= k < p.push(t).len() implies !names_global(
                #[trigger] p.push(t)[k],
            ) by {
                if k < p.len() {
                    assert(p[k] == p.push(t)[k]);
                }
            }
        }
    }
}

/// A read of a project always covers that project and the global project,
/// and every linked project.
pub proof fn lemma_scope_covers(target: Seq<char>, linked: Seq<Seq<char>>)
    ensures
        scope_of(false, target, linked).contains(target),
        scope_of(false, target, linked).contains(global_id()),
        forall|x: Seq<char>| #[trigger] linked.contains(x) ==> scope_of(false, target, linked).contains(x),
        scope_of(true, target, linked) == seq![global_id()],
    decreases linked.len(),
{
    let base = seq![target, global_id()];
    lemma_add_absent_keeps(base, linked);
    assert(base[0] == target);
    assert(base[1] == global_id());
    assert(base.contains(target));
    assert(base.contains(global_id()));
}

proof fn lemma_add_absent_keeps(ids: Seq<Seq<char>>, extra: Seq<Seq<char>>)
    ensures
        forall|x: Seq<char>| #[trigger] ids.contains(x) ==> add_absent(ids, extra).contains(x),
        forall|x: Seq<char>| #[trigger] extra.contains(x) ==> add_absent(ids, extra).contains(x),
    decreases extra.len(),
{
    if extra.len() > 0 {
        lemma_add_absent_keeps(ids, extra.drop_last());
        let p = add_absent(ids, extra.drop_last());
        let e = extra.last();
        assert forall|x: Seq<char>| p.contains(x) implies add_absent(ids, extra).contains(x) by {
            if !p.contains(e) {
                let k = choose|k: int| 0 <= k < p.len() && p[k] == x;
                assert(p.push(e)[k] == x);
            }
        }
        assert forall|x: Seq<char>| extra.contains(x) implies add_absent(ids, extra).contains(x) by {
            let k = choose|k: int| 0 <= k < extra.len() && extra[k] == x;
            if k < extra.len() - 1 {
                assert(extra.drop_last()[k] == x);
                assert(extra.drop_last().contains(x));
                assert(p.contains(x));
                if !p.contains(e) {
                    let j = choose|j: int| 0 <= j < p.len() && p[j] == x;
                    assert(p.push(e)[j] == x);
                }
            } else if !p.contains(e) {
                assert(p.push(e)[p.len() as int] == e);
            }
        }
    }
}

/// Every memory read back is a stored one and passes the filters, at most
/// `limit` come back, and when no more than `limit` pass, all of them come
/// back.
pub proof fn lemma_filter_laws(
    records: Seq<MemoryRecord>,
    is_permanent: Option<bool>,
    tags_filter: Option<Seq<Seq<char>>>,
    limit: nat,
)
    ensures
        filtered_memories(records, is_permanent, tags_filter, limit).len() <= limit,
        forall|k: int|
            0 <= k < filtered_memories(records, is_permanent, tags_filter, limit).len()
                ==> passes_filters(
                #[trigger] filtered_memories(records, is_permanent, tags_filter, limit)[k],
                is_permanent,
                tags_filter,
            ) && records.contains(filtered_memories(records, is_permanent, tags_filter, limit)[k]),
        passing(records, is_permanent, tags_filter).len() <= limit ==> forall|k: int|
            0 <= k < records.len() && passes_filters(records[k], is_permanent, tags_filter)
                ==> #[trigger] filtered_memories(records, is_permanent, tags_filter, limit).contains(
                records[k],
            ),
{
    let f = |m: MemoryRecord| passes_filters(m, is_permanent, tags_filter);
    let kept = records.filter(f);
    assert(kept == passing(records, is_permanent, tags_filter));
    let out = filtered_memories(records, is_permanent, tags_filter, limit);
    assert forall|k: int| 0 <= k < kept.len() implies passes_filters(
        #[trigger] kept[k],
        is_permanent,
        tags_filter,
    ) && records.contains(kept[k]) by {
        records.lemma_filter_pred(f, k);
        assert(kept.contains(kept[k]));
        records.lemma_filter_contains_rev(f, kept[k]);
    }
    assert forall|k: int| 0 <= k < out.len() implies passes_filters(
        #[trigger] out[k],
        is_permanent,
        tags_filter,
    ) && records.contains(out[k]) by {
        assert(out[k] == kept[k]);
    }
    if kept.len() <= limit {
        assert forall|k: int|
            0 <= k < records.len() && passes_filters(
                records[k],
                is_permanent,
                tags_filter,
            ) implies #[trigger] out.contains(records[k]) by {
            records.lemma_filter_contains(f, k);
        }
    }
}

/// A memory carries a tag of the filter, at any position of the filter;
/// without a filter, or with an empty one, every memory does.
pub open spec fn carries_filter_tag(m: MemoryRecord, tags_filter: Option<Seq<Seq<char>>>) -> bool {
    match tags_filter {
        Some(f) => f.len() > 0 ==> exists|i: int|
            0 <= i < f.len() && #[trigger] strings_view(m.tags@).contains(f[i]),
        None => true,
    }
}

/// What a read with filters returns, in terms of the memories' own fields:
/// every memory returned has the asked permanence and, under a non-empty
/// tag filter, carries some tag of the filter, at any position of it; and
/// when there are no more stored memories than the limit, every stored
/// memory with the asked permanence that carries some filter tag (or any
/// memory, without a tag filter or with an empty one) is returned.
pub proof fn lemma_tag_filter_any_of(
    records: Seq<MemoryRecord>,
    is_permanent: Option<bool>,
    tags_filter: Option<Seq<Seq<char>>>,
    limit: nat,
)
    ensures
        forall|k: int|
            #![trigger filtered_memories(records, is_permanent, tags_filter, limit)[k]]
            0 <= k < filtered_memories(records, is_permanent, tags_filter, limit).len() ==> (
            is_permanent matches Some(p) ==> filtered_memories(
                records,
                is_permanent,
                tags_filter,
                limit,
            )[k].is_permanent == p) && carries_filter_tag(
                filtered_memories(records, is_permanent, tags_filter, limit)[k],
                tags_filter,
            ),
        records.len() <= limit ==> forall|k: int, t: Seq<char>|
            0 <= k < records.len() && (is_permanent matches Some(p) ==> records[k].is_permanent
                == p) && (match tags_filter {
                Some(f) => f.contains(t),
                None => true,
            }) && #[trigger] strings_view(records[k].tags@).contains(t)
                ==> filtered_memories(records, is_permanent, tags_filter, limit).contains(
                records[k],
            ),
        records.len() <= limit ==> forall|k: int|
            0 <= k < records.len() && (is_permanent matches Some(p) ==> records[k].is_permanent
                == p) && match tags_filter {
                Some(f) => f.len() == 0,
                None => true,
            } ==> #[trigger] filtered_memories(records, is_permanent, tags_filter, limit).contains(
                records[k],
            ),
{
    lemma_filter_laws(records, is_permanent, tags_filter, limit);
    let f = |m: MemoryRecord| passes_filters(m, is_permanent, tags_filter);
    records.lemma_filter_len(f);
    assert(records.filter(f) == passing(records, is_permanent, tags_filter));
    let out = filtered_memories(records, is_permanent, tags_filter, limit);
    assert forall|k: int| 0 <= k < out.len() implies #[trigger] carries_filter_tag(
        out[k],
        tags_filter,
    ) by {
        assert(passes_filters(out[k], is_permanent, tags_filter));
    }
    assert forall|k: int, t: Seq<char>|
        0 <= k < records.len() && (is_permanent matches Some(p) ==> records[k].is_permanent == p)
            && (match tags_filter {
            Some(f) => f.contains(t),
            None => true,
        }) && #[trigger] strings_view(records[k].tags@).contains(t) && records.len()
            <= limit implies out.contains(records[k]) by {
        match tags_filter {
            Some(fl) => {
                let i = choose|i: int| 0 <= i < fl.len() && fl[i] == t;
                assert(strings_view(records[k].tags@).contains(fl[i]));
            },
            None => {},
        }
        assert(passes_filters(records[k], is_permanent, tags_filter));
    }
}

/// The memory a new one replaces is a stored memory that it restates; when
/// it replaces none, it restates no stored memory.
pub proof fn lemma_upsert_replaces_similar(existing: Seq<MemoryRecord>, content: Seq<char>)
    ensures
        match first_similar(existing, content) {
            Some(id) => exists|k: int|
                0 <= k < existing.len() && existing[k].id@ == id && #[trigger] similar(
                    content,
                    existing[k].content@,
                ),
            None => forall|k: int|
                0 <= k < existing.len() ==> !#[trigger] similar(content, existing[k].content@),
        },
    decreases existing.len(),
{
    if existing.len() > 0 {
        let rest = existing.drop_first();
        lemma_upsert_replaces_similar(rest, content);
        if !similar(content, existing[0].content@) {
            match first_similar(rest, content) {
                Some(id) => {
                    let k = choose|k: int|
                        0 <= k < rest.len() && rest[k].id@ == id && #[trigger] similar(
                            content,
                            rest[k].content@,
                        );
                    assert(existing[k + 1] == rest[k]);
                },
                None => {
                    assert forall|k: int| 0 <= k < existing.len() implies !#[trigger] similar(
                        content,
                        existing[k].content@,
                    ) by {
                        if k > 0 {
                            assert(existing[k] == rest[k - 1]);
                        }
                    }
                },
            }
        }
    }
}

/// The session key for a parent process id.
pub open spec fn ppid_key(pid: nat) -> Seq<char> {
    "ppid_"@ + dec_digits(pid)
}

/// The session key for a conversation id.
pub open spec fn conv_key(conv: Seq<char>) -> Seq<char> {
    "conv_"@ + conv
}

/// The session keys under which a workspace is recorded: `latest`; the
/// parent process's key when its id is not 0; the conversation's key when
/// its trimmed id is not blank.
pub open spec fn session_keys_of(parent_pid: nat, conversation_id: Option<Seq<char>>) -> Seq<
    Seq<char>,
> {
    let a = seq!["latest"@];
    let b = if parent_pid > 0 {
        a.push(ppid_key(parent_pid))
    } else {
        a
    };
    match conversation_id {
        Some(c) if trim_ws(c).len() > 0 => b.push(conv_key(trim_ws(c))),
        _ => b,
    }
}

/// Session isolation: keys of different kinds never collide, and
/// different parent processes, or different conversations, are recorded
/// under different keys.
pub proof fn lemma_session_keys_isolate(p1: nat, p2: nat, c1: Seq<char>, c2: Seq<char>)
    ensures
        p1 != p2 ==> ppid_key(p1) != ppid_key(p2),
        c1 != c2 ==> conv_key(c1) != conv_key(c2),
        ppid_key(p1) != conv_key(c1),
        ppid_key(p1) != "latest"@,
        conv_key(c1) != "latest"@,
{
    reveal_strlit("ppid_");
    reveal_strlit("conv_");
    reveal_strlit("latest");
    if ppid_key(p1) == ppid_key(p2) {
        assert(ppid_key(p1).skip(5) =~= dec_digits(p1));
        assert(ppid_key(p2).skip(5) =~= dec_digits(p2));
        lemma_dec_digits_injective(p1, p2);
    }
    if conv_key(c1) == conv_key(c2) {
        assert(conv_key(c1).skip(5) =~= c1);
        assert(conv_key(c2).skip(5) =~= c2);
    }
    assert(ppid_key(p1)[0] == 'p');
    assert(conv_key(c1)[0] == 'c');
    assert("latest"@[0] == 'l');
}

fn ppid_key_exec(pid: u32) -> (r: String)
    ensures
        r@ == ppid_key(pid as nat),
{
    let mut v: Vec<char> = Vec::new();
    append_str(&mut v, "ppid_");
    push_decimal(&mut v, pid as u64);
    string_of(&v)
}

/// The keys under which the hook records the active workspace (see
/// `session_keys_of`).
pub fn session_keys(parent_pid: u32, conversation_id: Option<&str>) -> (r: Vec<String>)
    ensures
        strings_view(r@) == session_keys_of(
            parent_pid as nat,
            match conversation_id {
                Some(c) => Some(c@),
                None => None,
            },
        ),
{
    let mut keys: Vec<String> = vec!["latest".to_string()];
    assert(strings_view(keys@) =~= seq!["latest"@]);
    if parent_pid > 0 {
        let ghost prev = strings_view(keys@);
        keys.push(ppid_key_exec(parent_pid));
        assert(strings_view(keys@) =~= prev.push(ppid_key(parent_pid as nat)));
    }
    match conversation_id {
        Some(c) => {
            let cv = chars_of(c);
            let t = trim_exec(&cv, TrimKind::Whitespace);
            if t.len() > 0 {
                let mut v: Vec<char> = Vec::new();
                append_str(&mut v, "conv_");
                append_chars(&mut v, &t);
                let ghost prev = strings_view(keys@);
                keys.push(string_of(&v));
                assert(strings_view(keys@) =~= prev.push(conv_key(trim_ws(c@))));
            }
        },
        None => {
        },
    }
    keys
}

/// The keys tried, in order, to find the active workspace: the parent
/// process's key when its id is not 0, then `latest`.
pub open spec fn lookup_keys_of(parent_pid: nat) -> Seq<Seq<char>> {
    if parent_pid > 0 {
        seq![ppid_key(parent_pid), "latest"@]
    } else {
        seq!["latest"@]
    }
}

/// A window looks its active workspace up only under keys that the same
/// window records it under, whatever the conversation: its own process key
/// first (when its parent process id is not 0), the shared `latest` last.
pub proof fn lemma_lookup_keys_recorded(parent_pid: nat, conversation_id: Option<Seq<char>>)
    ensures
        forall|k: int|
            0 <= k < lookup_keys_of(parent_pid).len() ==> session_keys_of(
                parent_pid,
                conversation_id,
            ).contains(#[trigger] lookup_keys_of(parent_pid)[k]),
        lookup_keys_of(parent_pid).last() == "latest"@,
        parent_pid > 0 ==> lookup_keys_of(parent_pid)[0] == ppid_key(parent_pid),
{
    let keys = session_keys_of(parent_pid, conversation_id);
    assert(keys[0] == "latest"@);
    if parent_pid > 0 {
        assert(keys[1] == ppid_key(parent_pid));
    }
}

/// The keys to look the active workspace up under (see `lookup_keys_of`).
pub fn active_lookup_keys(parent_pid: u32) -> (r: Vec<String>)
    ensures
        strings_view(r@) == lookup_keys_of(parent_pid as nat),
{
    let mut keys: Vec<String> = Vec::new();
    if parent_pid > 0 {
        keys.push(ppid_key_exec(parent_pid));
    }
    let ghost prev = strings_view(keys@);
    keys.push("latest".to_string());
    assert(strings_view(keys@) =~= prev.push("latest"@));
    if parent_pid > 0 {
        assert(strings_view(keys@) =~= seq![ppid_key(parent_pid as nat), "latest"@]);
    } else {
        assert(strings_view(keys@) =~= seq!["latest"@]);
    }
    keys
}

/// `s` followed by the optional string's text, when there is one.
pub open spec fn with_optional(s: Seq<Seq<char>>, o: Option<String>) -> Seq<Seq<char>> {
    match o {
        Some(t) => s.push(t@),
        None => s,
    }
}

/// The projects whose memory counts a move must refresh: each source
/// project once, in order, then the target unless already listed.
pub fn projects_to_recount(sources: Vec<String>, target: Option<String>) -> (r: Vec<String>)
    ensures
        strings_view(r@) == add_absent(Seq::empty(), with_optional(strings_view(sources@), target)),
{
    let ghost all = with_optional(strings_view(sources@), target);
    let mut list = sources;
    match target {
        Some(t) => {
            list.push(t);
        },
        None => {
        },
    }
    assert(strings_view(list@) =~= all);
    let n0 = list.len();
    assert(all.len() == n0);
    let mut rest = list;
    let mut out: Vec<String> = Vec::new();
    let mut i: usize = 0;
    assert(all.take(0) =~= Seq::<Seq<char>>::empty());
    while rest.len() > 0
        invariant
            i + rest.len() == all.len(),
            all.len() <= usize::MAX,
            strings_view(rest@) == all.skip(i as int),
            strings_view(out@) == add_absent(Seq::empty(), all.take(i as int)),
        decreases rest.len(),
    {
        let x = rest.remove(0);
        assert(x@ == all[i as int]);
        assert(all.take(i as int + 1).drop_last() =~= all.take(i as int));
        assert(strings_view(rest@) =~= all.skip(i as int + 1));
        if !contains_string(&out, &x) {
            let ghost prev = strings_view(out@);
            out.push(x);
            assert(strings_view(out@) =~= prev.push(all[i as int]));
        }
        i = i + 1;
    }
    assert(all.take(i as int) =~= all);
    out
}

} // verus!

//! The context text injected before a prompt: the active projects, their
//! rules and recent memories, global rules, linked-project rules, and the
//! memories that match the prompt.
use vstd::prelude::*;

use crate::similarity::strings_view;
use crate::store::{global_id, MemoryRecord, ProjectRecord};
use crate::text::{
    append_chars, append_str, chars_eq, chars_of, contains_sub, contains_word, join, join_exec,
    matches_at, trim_exec, trim_ws, utf8_len, utf8_len_exec, views, TrimKind,
};

verus! {

broadcast use vstd::seq_lib::group_seq_properties;

/// At most this many global rules are injected.
pub const MAX_GLOBAL_MEMORIES: usize = 1000;

/// At most this many permanent rules of a project are injected.
pub const MAX_PERMANENT_MEMORIES: usize = 1000;

/// At most this many short-term memories of a project are injected.
pub const MAX_SHORT_TERM_MEMORIES: usize = 50;

/// At most this many memories of each project match the prompt.
pub const PROMPT_MATCH_LIMIT: usize = 5;

/// The permanent rules of one linked project.
#[derive(Clone, Debug)]
pub struct LinkedRules {
    pub project_id: String,
    pub memories: Vec<MemoryRecord>,
}

/// What is injected for one active project.
#[derive(Clone, Debug)]
pub struct ProjectContext {
    pub project: ProjectRecord,
    pub permanent: Vec<MemoryRecord>,
    pub short_term: Vec<MemoryRecord>,
    pub linked: Vec<LinkedRules>,
}

/// Adds a project to the active projects unless one with the same id is
/// already there; answers whether it was added.
pub fn add_project_once(projects: &mut Vec<ProjectRecord>, proj: ProjectRecord) -> (added: bool)
    ensures
        added == !old(projects)@.map_values(|p: ProjectRecord| p.id@).contains(proj.id@),
        added ==> final(projects)@ == old(projects)@.push(proj),
        !added ==> final(projects)@ == old(projects)@,
{
    let mut i: usize = 0;
    let ghost ids = projects@.map_values(|p: ProjectRecord| p.id@);
    while i < projects.len()
        invariant
            i <= projects.len(),
            projects@ == old(projects)@,
            ids == projects@.map_values(|p: ProjectRecord| p.id@),
            forall|k: int| 0 <= k < i ==> ids[k] != proj.id@,
        decreases projects.len() - i,
    {
        assert(ids[i as int] == projects@[i as int].id@);
        if projects[i].id == proj.id {
            return false;
        }
        i = i + 1;
    }
    projects.push(proj);
    true
}

/// The linked projects whose rules are loaded for a project: each linked id
/// that is neither the project itself, nor the global project, nor one of
/// the active projects (`seen`), in order.
pub open spec fn linked_to_load(
    links: Seq<Seq<char>>,
    own_id: Seq<char>,
    seen: Seq<Seq<char>>,
) -> Seq<Seq<char>>
    decreases links.len(),
{
    if links.len() == 0 {
        Seq::empty()
    } else {
        let p = linked_to_load(links.drop_last(), own_id, seen);
        let l = links.last();
        if l != own_id && l != global_id() && !seen.contains(l) {
            p.push(l)
        } else {
            p
        }
    }
}

/// The linked project ids whose rules are loaded for `proj` (see
/// `linked_to_load`).
pub fn linked_ids_to_load(proj: &ProjectRecord, seen: &Vec<String>) -> (r: Vec<String>)
    ensures
        strings_view(r@) == linked_to_load(
            strings_view(proj.linked_project_ids@),
            proj.id@,
            strings_view(seen@),
        ),
{
    let ghost links = strings_view(proj.linked_project_ids@);
    let own = chars_of(proj.id.as_str());
    let g = chars_of("global");
    let mut seen_v: Vec<Vec<char>> = Vec::new();
    let mut j: usize = 0;
    while j < seen.len()
        invariant
            j <= seen.len(),
            views(seen_v@) == strings_view(seen@).take(j as int),
        decreases seen.len() - j,
    {
        let ghost prev = views(seen_v@);
        seen_v.push(chars_of(seen[j].as_str()));
        assert(views(seen_v@) =~= prev.push(strings_view(seen@)[j as int]));
        j = j + 1;
    }
    assert(strings_view(seen@).take(seen.len() as int) =~= strings_view(seen@));
    let mut out: Vec<String> = Vec::new();
    let mut i: usize = 0;
    assert(links.take(0) =~= Seq::<Seq<char>>::empty());
    while i < proj.linked_project_ids.len()
        invariant
            i <= proj.linked_project_ids.len(),
            links == strings_view(proj.linked_project_ids@),
            own@ == proj.id@,
            g@ == global_id(),
            views(seen_v@) == strings_view(seen@),
            strings_view(out@) == linked_to_load(
                links.take(i as int),
                proj.id@,
                strings_view(seen@),
            ),
        decreases proj.linked_project_ids.len() - i,
    {
        let l = chars_of(proj.linked_project_ids[i].as_str());
        assert(l@ == links[i as int]);
        assert(links.take(i as int + 1).drop_last() =~= links.take(i as int));
        if !chars_eq(&l, &own) && !chars_eq(&l, &g) && !contains_word(&seen_v, &l) {
            let ghost prev = strings_view(out@);
            out.push(proj.linked_project_ids[i].clone());
            assert(strings_view(out@) =~= prev.push(links[i as int]));
        }
        i = i + 1;
    }
    assert(links.take(proj.linked_project_ids.len() as int) =~= links);
    out
}

/// The prompt to search memories with: the user prompt, else the prompt,
/// trimmed; none when absent or shorter than 3 bytes.
pub open spec fn search_prompt(user_prompt: Option<Seq<char>>, prompt: Option<Seq<char>>) -> Option<
    Seq<char>,
> {
    let chosen = match user_prompt {
        Some(u) => Some(u),
        None => prompt,
    };
    match chosen {
        Some(p) if utf8_len(trim_ws(p)) >= 3 => Some(trim_ws(p)),
        _ => None,
    }
}

/// Chooses the prompt to search memories with (see `search_prompt`).
pub fn prompt_for_search(user_prompt: Option<String>, prompt: Option<String>) -> (r: Option<String>)
    ensures
        match r {
            Some(p) => search_prompt(
                match user_prompt {
                    Some(u) => Some(u@),
                    None => None,
                },
                match prompt {
                    Some(q) => Some(q@),
                    None => None,
                },
            ) == Some(p@),
            None => search_prompt(
                match user_prompt {
                    Some(u) => Some(u@),
                    None => None,
                },
                match prompt {
                    Some(q) => Some(q@),
                    None => None,
                },
            ) is None,
        },
{
    let chosen = match user_prompt {
        Some(u) => Some(u),
        None => prompt,
    };
    match chosen {
        Some(p) => {
            let pv = chars_of(p.as_str());
            let t = trim_exec(&pv, TrimKind::Whitespace);
            if utf8_len_exec(&t) >= 3 {
                Some(crate::text::string_of(&t))
            } else {
                None
            }
        },
        None => None,
    }
}

/// One line per memory: `- `, its text, a line break.
pub open spec fn bullet_lines(ms: Seq<MemoryRecord>) -> Seq<char>
    decreases ms.len(),
{
    if ms.len() == 0 {
        Seq::empty()
    } else {
        bullet_lines(ms.drop_last()) + "- "@ + ms.last().content@ + "\n"@
    }
}

/// The start of the directive that tells the agent to read memories first.
pub open spec fn directive_head() -> Seq<char> {
    "CRITICAL MEMORY DIRECTIVE: To answer questions about stored memories, rules, or saved context, you MUST FIRST execute call_mcp_tool(ServerName=\"apm-mcp\", ToolName=\"get_memories\", Arguments={\"project_id\": \""@
}

/// The end of the directive that tells the agent to read memories first.
pub open spec fn directive_tail() -> Seq<char> {
    "\"}). DO NOT scan repository files before calling get_memories, and NEVER substitute repository files as stored memories. The final answer MUST be constructed strictly from the memory records returned by get_memories."@
}

/// The names of the projects.
pub open spec fn project_names(ps: Seq<ProjectContext>) -> Seq<Seq<char>> {
    ps.map_values(|p: ProjectContext| p.project.name@)
}

/// The ids of the projects.
pub open spec fn project_ids(ps: Seq<ProjectContext>) -> Seq<Seq<char>> {
    ps.map_values(|p: ProjectContext| p.project.id@)
}

/// The opening lines: the project and the directive naming its id, or, for
/// several projects, all names and ids and a directive with a placeholder
/// id.
pub open spec fn context_header(ps: Seq<ProjectContext>) -> Seq<char> {
    if ps.len() == 1 {
        "[Memory Context: "@ + ps[0].project.name@ + " | Project ID: "@ + ps[0].project.id@ + "]\n"@
            + directive_head() + ps[0].project.id@ + directive_tail() + "\n"@
    } else {
        "[Memory Context: "@ + join(project_names(ps), ", "@) + " | Active Project IDs: "@ + join(
            project_ids(ps),
            ", "@,
        ) + "]\n"@ + directive_head() + "<active_project_id>"@ + directive_tail() + "\n"@
    }
}

/// The global rules, under their heading, when there are some.
pub open spec fn global_section(global: Seq<MemoryRecord>) -> Seq<char> {
    if global.len() == 0 {
        Seq::empty()
    } else {
        "\nGlobal User Rules:\n"@ + bullet_lines(global)
    }
}

/// The rules of each linked project that has some, each under a heading
/// naming it.
pub open spec fn linked_sections(ls: Seq<LinkedRules>) -> Seq<char>
    decreases ls.len(),
{
    if ls.len() == 0 {
        Seq::empty()
    } else if ls.last().memories@.len() == 0 {
        linked_sections(ls.drop_last())
    } else {
        linked_sections(ls.drop_last()) + "\nLinked Project Rules (from: "@ + ls.last().project_id@
            + "):\n"@ + bullet_lines(ls.last().memories@)
    }
}

/// A heading line, naming the project when several are active.
pub open spec fn titled(title: Seq<char>, name: Seq<char>, several: bool) -> Seq<char> {
    if several {
        "\n"@ + title + " ("@ + name + "):\n"@
    } else {
        "\n"@ + title + ":\n"@
    }
}

/// What is injected for one project: its permanent rules, the rules of its
/// linked projects, then its short-term memories, each part only when not
/// empty.
pub open spec fn project_section(pc: ProjectContext, several: bool) -> Seq<char> {
    let perm = if pc.permanent@.len() == 0 {
        Seq::empty()
    } else {
        titled("Project Permanent Rules"@, pc.project.name@, several) + bullet_lines(pc.permanent@)
    };
    let short = if pc.short_term@.len() == 0 {
        Seq::empty()
    } else {
        titled("Project Short-Term Memories"@, pc.project.name@, several) + bullet_lines(
            pc.short_term@,
        )
    };
    perm + linked_sections(pc.linked@) + short
}

/// The sections of all projects, in order.
pub open spec fn project_sections(ps: Seq<ProjectContext>, several: bool) -> Seq<char>
    decreases ps.len(),
{
    if ps.len() == 0 {
        Seq::empty()
    } else {
        project_sections(ps.drop_last(), several) + project_section(ps.last(), several)
    }
}

/// The lines for prompt matches, each memory once (by id, first occurrence
/// kept): `- [id] text`; with the ids listed.
pub open spec fn match_lines(ms: Seq<MemoryRecord>) -> (Seq<char>, Seq<Seq<char>>)
    decreases ms.len(),
{
    if ms.len() == 0 {
        (Seq::empty(), Seq::empty())
    } else {
        let (text, ids) = match_lines(ms.drop_last());
        let m = ms.last();
        if ids.contains(m.id@) {
            (text, ids)
        } else {
            (text + "- ["@ + m.id@ + "] "@ + m.content@ + "\n"@, ids.push(m.id@))
        }
    }
}

/// The prompt-match section, when some memory matched.
pub open spec fn match_section(ms: Seq<MemoryRecord>) -> Seq<char> {
    if ms.len() == 0 {
        Seq::empty()
    } else {
        "\nAuto-Injected Relevant Rules (Prompt Match):\n"@ + match_lines(ms).0
    }
}

/// Nothing was found to inject: no global rule, no project rule or memory,
/// no linked project with rules, no prompt match.
pub open spec fn nothing_found(
    ps: Seq<ProjectContext>,
    global: Seq<MemoryRecord>,
    matched: Seq<MemoryRecord>,
) -> bool {
    &&& global.len() == 0
    &&& matched.len() == 0
    &&& forall|k: int| 0 <= k < ps.len() ==> #[trigger] quiet(ps[k])
}

/// A project with no rules, no memories and no linked rules to inject.
pub open spec fn quiet(pc: ProjectContext) -> bool {
    &&& pc.permanent@.len() == 0
    &&& pc.short_term@.len() == 0
    &&& forall|j: int| 0 <= j < pc.linked@.len() ==> #[trigger] pc.linked@[j].memories@.len() == 0
}

/// The note added when nothing was found.
pub open spec fn empty_note() -> Seq<char> {
    "\n[Database Status: No saved memories currently recorded for this project in DB. Invoke call_mcp_tool(ServerName=\"apm-mcp\", ToolName=\"get_memories\", Arguments={\"project_id\": \"<active_project_id>\"}) to query.]\n"@
}

/// The whole injected context for the active projects, the global rules
/// and the prompt matches.
pub open spec fn hook_context(
    ps: Seq<ProjectContext>,
    global: Seq<MemoryRecord>,
    matched: Seq<MemoryRecord>,
) -> Seq<char> {
    context_header(ps) + global_section(global) + project_sections(ps, ps.len() > 1) + match_section(
        matched,
    ) + if nothing_found(ps, global, matched) {
        empty_note()
    } else {
        Seq::empty()
    }
}

fn push_bullets(out: &mut Vec<char>, ms: &Vec<MemoryRecord>)
    ensures
        final(out)@ == old(out)@ + bullet_lines(ms@),
{
    let ghost start = out@;
    let mut i: usize = 0;
    assert(ms@.take(0) =~= Seq::<MemoryRecord>::empty());
    assert(out@ =~= start + bullet_lines(ms@.take(0)));
    while i < ms.len()
        invariant
            i <= ms.len(),
            out@ == start + bullet_lines(ms@.take(i as int)),
        decreases ms.len() - i,
    {
        assert(ms@.take(i as int + 1).drop_last() =~= ms@.take(i as int));
        append_str(out, "- ");
        append_str(out, ms[i].content.as_str());
        append_str(out, "\n");
        i = i + 1;
        assert(out@ =~= start + bullet_lines(ms@.take(i as int)));
    }
    assert(ms@.take(ms.len() as int) =~= ms@);
}

fn push_header(out: &mut Vec<char>, ps: &Vec<ProjectContext>)
    ensures
        final(out)@ == old(out)@ + context_header(ps@),
{
    let head = "CRITICAL MEMORY DIRECTIVE: To answer questions about stored memories, rules, or saved context, you MUST FIRST execute call_mcp_tool(ServerName=\"apm-mcp\", ToolName=\"get_memories\", Arguments={\"project_id\": \"";
    let tail = "\"}). DO NOT scan repository files before calling get_memories, and NEVER substitute repository files as stored memories. The final answer MUST be constructed strictly from the memory records returned by get_memories.";
    if ps.len() == 1 {
        append_str(out, "[Memory Context: ");
        append_str(out, ps[0].project.name.as_str());
        append_str(out, " | Project ID: ");
        append_str(out, ps[0].project.id.as_str());
        append_str(out, "]\n");
        append_str(out, head);
        append_str(out, ps[0].project.id.as_str());
        append_str(out, tail);
        append_str(out, "\n");
        assert(final(out)@ =~= old(out)@ + context_header(ps@));
    } else {
        let mut names: Vec<Vec<char>> = Vec::new();
        let mut ids: Vec<Vec<char>> = Vec::new();
        let mut i: usize = 0;
        while i < ps.len()
            invariant
                i <= ps.len(),
                views(names@) == project_names(ps@).take(i as int),
                views(ids@) == project_ids(ps@).take(i as int),
            decreases ps.len() - i,
        {
            let ghost pn = views(names@);
            let ghost pi = views(ids@);
            names.push(chars_of(ps[i].project.name.as_str()));
            ids.push(chars_of(ps[i].project.id.as_str()));
            assert(views(names@) =~= pn.push(project_names(ps@)[i as int]));
            assert(views(ids@) =~= pi.push(project_ids(ps@)[i as int]));
            i = i + 1;
        }
        assert(project_names(ps@).take(ps.len() as int) =~= project_names(ps@));
        assert(project_ids(ps@).take(ps.len() as int) =~= project_ids(ps@));
        let sep = chars_of(", ");
        let joined_names = join_exec(&names, &sep);
        let joined_ids = join_exec(&ids, &sep);
        append_str(out, "[Memory Context: ");
        append_chars(out, &joined_names);
        append_str(out, " | Active Project IDs: ");
        append_chars(out, &joined_ids);
        append_str(out, "]\n");
        append_str(out, head);
        append_str(out, "<active_project_id>");
        append_str(out, tail);
        append_str(out, "\n");
        assert(final(out)@ =~= old(out)@ + context_header(ps@));
    }
}

fn push_titled(out: &mut Vec<char>, title: &str, name: &String, several: bool)
    ensures
        final(out)@ == old(out)@ + titled(title@, name@, several),
{
    if several {
        append_str(out, "\n");
        append_str(out, title);
        append_str(out, " (");
        append_str(out, name.as_str());
        append_str(out, "):\n");
    } else {
        append_str(out, "\n");
        append_str(out, title);
        append_str(out, ":\n");
    }
    assert(final(out)@ =~= old(out)@ + titled(title@, name@, several));
}

fn push_linked(out: &mut Vec<char>, ls: &Vec<LinkedRules>)
    ensures
        final(out)@ == old(out)@ + linked_sections(ls@),
{
    let ghost start = out@;
    let mut i: usize = 0;
    assert(ls@.take(0) =~= Seq::<LinkedRules>::empty());
    assert(out@ =~= start + linked_sections(ls@.take(0)));
    while i < ls.len()
        invariant
            i <= ls.len(),
            out@ == start + linked_sections(ls@.take(i as int)),
        decreases ls.len() - i,
    {
        assert(ls@.take(i as int + 1).drop_last() =~= ls@.take(i as int));
        if ls[i].memories.len() > 0 {
            append_str(out, "\nLinked Project Rules (from: ");
            append_str(out, ls[i].project_id.as_str());
            append_str(out, "):\n");
            push_bullets(out, &ls[i].memories);
        }
        i = i + 1;
        assert(out@ =~= start + linked_sections(ls@.take(i as int)));
    }
    assert(ls@.take(ls.len() as int) =~= ls@);
}

fn push_project_section(out: &mut Vec<char>, pc: &ProjectContext, several: bool)
    ensures
        final(out)@ == old(out)@ + project_section(*pc, several),
{
    let ghost start = out@;
    if pc.permanent.len() > 0 {
        push_titled(out, "Project Permanent Rules", &pc.project.name, several);
        push_bullets(out, &pc.permanent);
    }
    let ghost mid = out@;
    push_linked(out, &pc.linked);
    if pc.short_term.len() > 0 {
        push_titled(out, "Project Short-Term Memories", &pc.project.name, several);
        push_bullets(out, &pc.short_term);
    }
    assert(final(out)@ =~= start + project_section(*pc, several));
}

fn push_match_lines(out: &mut Vec<char>, ms: &Vec<MemoryRecord>)
    ensures
        final(out)@ == old(out)@ + match_lines(ms@).0,
{
    let ghost start = out@;
    let mut seen: Vec<Vec<char>> = Vec::new();
    let mut i: usize = 0;
    assert(ms@.take(0) =~= Seq::<MemoryRecord>::empty());
    assert(out@ =~= start + match_lines(ms@.take(0)).0);
    while i < ms.len()
        invariant
            i <= ms.len(),
            out@ == start + match_lines(ms@.take(i as int)).0,
            views(seen@) == match_lines(ms@.take(i as int)).1,
        decreases ms.len() - i,
    {
        assert(ms@.take(i as int + 1).drop_last() =~= ms@.take(i as int));
        assert(ms@.take(i as int + 1).last() == ms@[i as int]);
        let id = chars_of(ms[i].id.as_str());
        if !contains_word(&seen, &id) {
            let ghost prev = views(seen@);
            append_str(out, "- [");
            append_chars(out, &id);
            append_str(out, "] ");
            append_str(out, ms[i].content.as_str());
            append_str(out, "\n");
            seen.push(id);
            assert(views(seen@) =~= prev.push(ms@[i as int].id@));
        }
        i = i + 1;
        assert(out@ =~= start + match_lines(ms@.take(i as int)).0);
    }
    assert(ms@.take(ms.len() as int) =~= ms@);
}

fn nothing_found_exec(
    ps: &Vec<ProjectContext>,
    global: &Vec<MemoryRecord>,
    matched: &Vec<MemoryRecord>,
) -> (r: bool)
    ensures
        r == nothing_found(ps@, global@, matched@),
{
    if global.len() > 0 || matched.len() > 0 {
        return false;
    }
    let mut i: usize = 0;
    while i < ps.len()
        invariant
            i <= ps.len(),
            forall|k: int| 0 <= k < i ==> #[trigger] quiet(ps@[k]),
        decreases ps.len() - i,
    {
        if ps[i].permanent.len() > 0 || ps[i].short_term.len() > 0 {
            assert(!quiet(ps@[i as int]));
            return false;
        }
        let mut j: usize = 0;
        while j < ps[i].linked.len()
            invariant
                i < ps.len(),
                j <= ps@[i as int].linked@.len(),
                forall|q: int| 0 <= q < j ==> #[trigger] ps@[i as int].linked@[q].memories@.len() == 0,
            decreases ps@[i as int].linked@.len() - j,
        {
            if ps[i].linked[j].memories.len() > 0 {
                assert(!quiet(ps@[i as int]));
                return false;
            }
            j = j + 1;
        }
        assert(quiet(ps@[i as int]));
        i = i + 1;
    }
    true
}

/// The line of a memory in the injected context.
pub open spec fn bullet(m: MemoryRecord) -> Seq<char> {
    "- "@ + m.content@ + "\n"@
}

proof fn lemma_contains_extend(pre: Seq<char>, a: Seq<char>, post: Seq<char>, t: Seq<char>)
    requires
        contains_sub(a, t),
    ensures
        contains_sub(pre + a + post, t),
{
    let i = choose|i: int| matches_at(a, t, i);
    let s = pre + a + post;
    assert(s.subrange(pre.len() + i, pre.len() + i + t.len()) =~= a.subrange(i, i + t.len()));
    assert(matches_at(s, t, pre.len() + i));
}

proof fn lemma_contains_self(t: Seq<char>)
    ensures
        contains_sub(t, t),
{
    assert(t.subrange(0, t.len() as int) =~= t);
    assert(matches_at(t, t, 0));
}

proof fn lemma_bullets_contain(ms: Seq<MemoryRecord>, k: int)
    requires
        0 <= k < ms.len(),
    ensures
        contains_sub(bullet_lines(ms), bullet(ms[k])),
    decreases ms.len(),
{
    let prev = bullet_lines(ms.drop_last());
    assert(bullet_lines(ms) =~= prev + bullet(ms.last()) + Seq::<char>::empty());
    if k == ms.len() - 1 {
        lemma_contains_self(bullet(ms.last()));
        lemma_contains_extend(prev, bullet(ms.last()), Seq::empty(), bullet(ms[k]));
    } else {
        lemma_bullets_contain(ms.drop_last(), k);
        assert(bullet_lines(ms) =~= Seq::<char>::empty() + prev + bullet(ms.last()));
        lemma_contains_extend(Seq::empty(), prev, bullet(ms.last()), bullet(ms[k]));
    }
}

proof fn lemma_linked_contain(ls: Seq<LinkedRules>, j: int, k: int)
    requires
        0 <= j < ls.len(),
        0 <= k < ls[j].memories@.len(),
    ensures
        contains_sub(linked_sections(ls), bullet(ls[j].memories@[k])),
    decreases ls.len(),
{
    let prev = linked_sections(ls.drop_last());
    let last = ls.last();
    let t = bullet(ls[j].memories@[k]);
    if j == ls.len() - 1 {
        let head = prev + "\nLinked Project Rules (from: "@ + last.project_id@ + "):\n"@;
        assert(linked_sections(ls) =~= head + bullet_lines(last.memories@) + Seq::<char>::empty());
        lemma_bullets_contain(last.memories@, k);
        lemma_contains_extend(head, bullet_lines(last.memories@), Seq::empty(), t);
    } else {
        lemma_linked_contain(ls.drop_last(), j, k);
        let tail = linked_sections(ls).subrange(prev.len() as int, linked_sections(ls).len() as int);
        assert(linked_sections(ls) =~= Seq::<char>::empty() + prev + tail);
        lemma_contains_extend(Seq::empty(), prev, tail, t);
    }
}

/// What one project's section injects: each permanent rule, each rule of
/// each linked project and each short-term memory, as a line of its own.
proof fn lemma_section_contains(pc: ProjectContext, several: bool)
    ensures
        forall|k: int|
            0 <= k < pc.permanent@.len() ==> contains_sub(
                project_section(pc, several),
                #[trigger] bullet(pc.permanent@[k]),
            ),
        forall|k: int|
            0 <= k < pc.short_term@.len() ==> contains_sub(
                project_section(pc, several),
                #[trigger] bullet(pc.short_term@[k]),
            ),
        forall|j: int, k: int|
            0 <= j < pc.linked@.len() && 0 <= k < pc.linked@[j].memories@.len() ==> contains_sub(
                project_section(pc, several),
                #[trigger] bullet(pc.linked@[j].memories@[k]),
            ),
{
    let sec = project_section(pc, several);
    let tp = titled("Project Permanent Rules"@, pc.project.name@, several);
    let ts = titled("Project Short-Term Memories"@, pc.project.name@, several);
    let links = linked_sections(pc.linked@);
    assert forall|k: int| 0 <= k < pc.permanent@.len() implies contains_sub(
        sec,
        #[trigger] bullet(pc.permanent@[k]),
    ) by {
        let short = if pc.short_term@.len() == 0 {
            Seq::empty()
        } else {
            ts + bullet_lines(pc.short_term@)
        };
        assert(sec =~= tp + bullet_lines(pc.permanent@) + (links + short));
        lemma_bullets_contain(pc.permanent@, k);
        lemma_contains_extend(tp, bullet_lines(pc.permanent@), links + short, bullet(pc.permanent@[k]));
    }
    assert forall|k: int| 0 <= k < pc.short_term@.len() implies contains_sub(
        sec,
        #[trigger] bullet(pc.short_term@[k]),
    ) by {
        let perm = if pc.permanent@.len() == 0 {
            Seq::empty()
        } else {
            tp + bullet_lines(pc.permanent@)
        };
        assert(sec =~= (perm + links + ts) + bullet_lines(pc.short_term@) + Seq::<char>::empty());
        lemma_bullets_contain(pc.short_term@, k);
        lemma_contains_extend(perm + links + ts, bullet_lines(pc.short_term@), Seq::empty(), bullet(pc.short_term@[k]));
    }
    assert forall|j: int, k: int|
        0 <= j < pc.linked@.len() && 0 <= k < pc.linked@[j].memories@.len() implies contains_sub(
        sec,
        #[trigger] bullet(pc.linked@[j].memories@[k]),
    ) by {
        let perm = if pc.permanent@.len() == 0 {
            Seq::empty()
        } else {
            tp + bullet_lines(pc.permanent@)
        };
        let short = if pc.short_term@.len() == 0 {
            Seq::empty()
        } else {
            ts + bullet_lines(pc.short_term@)
        };
        assert(sec =~= perm + links + short);
        lemma_linked_contain(pc.linked@, j, k);
        lemma_contains_extend(perm, links, short, bullet(pc.linked@[j].memories@[k]));
    }
}

proof fn lemma_sections_contain(ps: Seq<ProjectContext>, several: bool, i: int, t: Seq<char>)
    requires
        0 <= i < ps.len(),
        contains_sub(project_section(ps[i], several), t),
    ensures
        contains_sub(project_sections(ps, several), t),
    decreases ps.len(),
{
    let prev = project_sections(ps.drop_last(), several);
    let last = project_section(ps.last(), several);
    if i == ps.len() - 1 {
        assert(project_sections(ps, several) =~= prev + last + Seq::<char>::empty());
        lemma_contains_extend(prev, last, Seq::empty(), t);
    } else {
        lemma_sections_contain(ps.drop_last(), several, i, t);
        assert(project_sections(ps, several) =~= Seq::<char>::empty() + prev + last);
        lemma_contains_extend(Seq::empty(), prev, last, t);
    }
}

/// Every global rule, and every permanent rule, linked-project rule and
/// short-term memory of each active project, is injected as a line
/// `- text` of the context.
pub proof fn lemma_context_injects_every_rule(
    ps: Seq<ProjectContext>,
    global: Seq<MemoryRecord>,
    matched: Seq<MemoryRecord>,
)
    ensures
        forall|k: int|
            0 <= k < global.len() ==> contains_sub(
                hook_context(ps, global, matched),
                #[trigger] bullet(global[k]),
            ),
        forall|i: int, k: int|
            0 <= i < ps.len() && 0 <= k < ps[i].permanent@.len() ==> contains_sub(
                hook_context(ps, global, matched),
                #[trigger] bullet(ps[i].permanent@[k]),
            ),
        forall|i: int, k: int|
            0 <= i < ps.len() && 0 <= k < ps[i].short_term@.len() ==> contains_sub(
                hook_context(ps, global, matched),
                #[trigger] bullet(ps[i].short_term@[k]),
            ),
        forall|i: int, j: int, k: int|
            0 <= i < ps.len() && 0 <= j < ps[i].linked@.len() && 0 <= k
                < ps[i].linked@[j].memories@.len() ==> contains_sub(
                hook_context(ps, global, matched),
                #[trigger] bullet(ps[i].linked@[j].memories@[k]),
            ),
{
    let several = ps.len() > 1;
    let head = context_header(ps);
    let sections = project_sections(ps, several);
    let rest = match_section(matched) + if nothing_found(ps, global, matched) {
        empty_note()
    } else {
        Seq::empty()
    };
    let ctx = hook_context(ps, global, matched);
    assert forall|k: int| 0 <= k < global.len() implies contains_sub(
        ctx,
        #[trigger] bullet(global[k]),
    ) by {
        let pre = head + "\nGlobal User Rules:\n"@;
        assert(ctx =~= pre + bullet_lines(global) + (sections + rest));
        lemma_bullets_contain(global, k);
        lemma_contains_extend(pre, bullet_lines(global), sections + rest, bullet(global[k]));
    }
    assert(ctx =~= (head + global_section(global)) + sections + rest);
    assert forall|i: int, k: int| 0 <= i < ps.len() && 0 <= k < ps[i].permanent@.len() implies contains_sub(
        ctx,
        #[trigger] bullet(ps[i].permanent@[k]),
    ) by {
        lemma_section_contains(ps[i], several);
        lemma_sections_contain(ps, several, i, bullet(ps[i].permanent@[k]));
        lemma_contains_extend(head + global_section(global), sections, rest, bullet(ps[i].permanent@[k]));
    }
    assert forall|i: int, k: int| 0 <= i < ps.len() && 0 <= k < ps[i].short_term@.len() implies contains_sub(
        ctx,
        #[trigger] bullet(ps[i].short_term@[k]),
    ) by {
        lemma_section_contains(ps[i], several);
        lemma_sections_contain(ps, several, i, bullet(ps[i].short_term@[k]));
        lemma_contains_extend(head + global_section(global), sections, rest, bullet(ps[i].short_term@[k]));
    }
    assert forall|i: int, j: int, k: int|
        0 <= i < ps.len() && 0 <= j < ps[i].linked@.len() && 0 <= k
            < ps[i].linked@[j].memories@.len() implies contains_sub(
        ctx,
        #[trigger] bullet(ps[i].linked@[j].memories@[k]),
    ) by {
        lemma_section_contains(ps[i], several);
        lemma_sections_contain(ps, several, i, bullet(ps[i].linked@[j].memories@[k]));
        lemma_contains_extend(head + global_section(global), sections, rest, bullet(ps[i].linked@[j].memories@[k]));
    }
}

/// The empty-database note closes the context exactly when no memory line
/// at all is injected: no global rule, no prompt match, and for every
/// active project no permanent rule, no short-term memory and no rule of a
/// linked project. Whenever some memory is injected, the context is the
/// header and the sections alone, with no note after them.
pub proof fn lemma_empty_note_only_when_nothing_injected(
    ps: Seq<ProjectContext>,
    global: Seq<MemoryRecord>,
    matched: Seq<MemoryRecord>,
)
    ensures
        ({
            let injected = global.len() > 0 || matched.len() > 0 || exists|i: int|
                #![trigger ps[i]]
                0 <= i < ps.len() && (ps[i].permanent@.len() > 0 || ps[i].short_term@.len() > 0
                    || exists|j: int|
                    #![trigger ps[i].linked@[j]]
                    0 <= j < ps[i].linked@.len() && ps[i].linked@[j].memories@.len() > 0);
            let body = context_header(ps) + global_section(global) + project_sections(
                ps,
                ps.len() > 1,
            ) + match_section(matched);
            hook_context(ps, global, matched) == if injected {
                body
            } else {
                body + empty_note()
            }
        }),
{
    let injected = global.len() > 0 || matched.len() > 0 || exists|i: int|
        #![trigger ps[i]]
        0 <= i < ps.len() && (ps[i].permanent@.len() > 0 || ps[i].short_term@.len() > 0
            || exists|j: int|
            #![trigger ps[i].linked@[j]]
            0 <= j < ps[i].linked@.len() && ps[i].linked@[j].memories@.len() > 0);
    if nothing_found(ps, global, matched) {
        assert forall|i: int| #![trigger ps[i]] 0 <= i < ps.len() implies !(ps[i].permanent@.len() > 0
            || ps[i].short_term@.len() > 0 || exists|j: int|
            #![trigger ps[i].linked@[j]]
            0 <= j < ps[i].linked@.len() && ps[i].linked@[j].memories@.len() > 0) by {
            assert(quiet(ps[i]));
        }
        assert(!injected);
    } else {
        if global.len() == 0 && matched.len() == 0 {
            let i = choose|i: int| 0 <= i < ps.len() && !#[trigger] quiet(ps[i]);
            if ps[i].permanent@.len() == 0 && ps[i].short_term@.len() == 0 {
                let j = choose|j: int|
                    0 <= j < ps[i].linked@.len() && #[trigger] ps[i].linked@[j].memories@.len()
                        != 0;
                assert(ps[i].linked@[j].memories@.len() > 0);
            } else {
                assert(ps[i].permanent@.len() > 0 || ps[i].short_term@.len() > 0);
                assert(0 <= 0 < ps[i].linked@.len() ==> true);
            }
        }
        assert(injected);
    }
}

/// Builds the injected context (see `hook_context`).
pub fn build_hook_context(
    projects: &Vec<ProjectContext>,
    global: &Vec<MemoryRecord>,
    matched: &Vec<MemoryRecord>,
) -> (r: String)
    ensures
        r@ == hook_context(projects@, global@, matched@),
{
    let mut out: Vec<char> = Vec::new();
    push_header(&mut out, projects);
    if global.len() > 0 {
        append_str(&mut out, "\nGlobal User Rules:\n");
        push_bullets(&mut out, global);
    }
    let ghost before_sections = out@;
    let several = projects.len() > 1;
    let mut i: usize = 0;
    assert(projects@.take(0) =~= Seq::<ProjectContext>::empty());
    assert(out@ =~= before_sections + project_sections(projects@.take(0), several));
    while i < projects.len()
        invariant
            i <= projects.len(),
            out@ == before_sections + project_sections(projects@.take(i as int), several),
        decreases projects.len() - i,
    {
        assert(projects@.take(i as int + 1).drop_last() =~= projects@.take(i as int));
        push_project_section(&mut out, &projects[i], several);
        i = i + 1;
        assert(out@ =~= before_sections + project_sections(projects@.take(i as int), several));
    }
    assert(projects@.take(projects.len() as int) =~= projects@);
    if matched.len() > 0 {
        append_str(&mut out, "\nAuto-Injected Relevant Rules (Prompt Match):\n");
        push_match_lines(&mut out, matched);
    }
    if nothing_found_exec(projects, global, matched) {
        append_str(
            &mut out,
            "\n[Database Status: No saved memories currently recorded for this project in DB. Invoke call_mcp_tool(ServerName=\"apm-mcp\", ToolName=\"get_memories\", Arguments={\"project_id\": \"<active_project_id>\"}) to query.]\n",
        );
    }
    assert(out@ =~= hook_context(projects@, global@, matched@));
    crate::text::string_of(&out)
}

} // verus!

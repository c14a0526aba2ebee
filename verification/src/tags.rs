//! Tags drawn from a memory's text, and the full-text query built from a
//! search string.
use vstd::prelude::*;

use crate::lexicon::strs_view;
use crate::similarity::{copy_chars, long_enough, strings_view};
use crate::text::{
    append_chars, chars_of, contains_exec, join_exec, contains_sub, contains_word, find_from, join,
    lowercase, matches_at, replace_all, replace_all_exec, split_words, split_words_exec,
    str_lowercase, string_of, trim_by, trim_exec, trim_pred, trim_ws, utf8_len, utf8_len_exec,
    views, TrimKind,
};

verus! {

broadcast use vstd::seq_lib::group_seq_properties;

/// `i` is the first position at or after `from` where `p` occurs in `s`.
pub open spec fn is_first_match(s: Seq<char>, p: Seq<char>, from: int, i: int) -> bool {
    from <= i && matches_at(s, p, i) && forall|j: int| from <= j < i ==> !matches_at(s, p, j)
}

/// The first position at or after `from` where `p` occurs in `s` (what
/// `str::find` on the rest of the text answers).
pub open spec fn first_match(s: Seq<char>, p: Seq<char>, from: int) -> Option<int> {
    if exists|i: int| is_first_match(s, p, from, i) {
        Some(choose|i: int| is_first_match(s, p, from, i))
    } else {
        None
    }
}

/// Finds the first occurrence of `p` in `s` at or after `from`.
pub fn find_first(s: &Vec<char>, p: &Vec<char>, from: usize) -> (r: Option<usize>)
    ensures
        match r {
            Some(i) => first_match(s@, p@, from as int) == Some(i as int),
            None => first_match(s@, p@, from as int) is None,
        },
{
    let r = find_from(s, p, from);
    match r {
        Some(i) => {
            assert(is_first_match(s@, p@, from as int, i as int));
            let ghost c = choose|c: int| is_first_match(s@, p@, from as int, c);
            assert(c == i) by {
                if c < i {
                    assert(!matches_at(s@, p@, c));
                }
                if i < c {
                    assert(!matches_at(s@, p@, i as int));
                }
            }
        },
        None => {
        },
    }
    r
}

/// The keywords that become tags when a memory's text mentions them.
pub open spec fn tag_keywords() -> Seq<Seq<char>> {
    seq![
        "typescript"@,
        "javascript"@,
        "python"@,
        "rust"@,
        "react"@,
        "solidjs"@,
        "vue"@,
        "svelte"@,
        "tailwind"@,
        "scss"@,
        "css"@,
        "clean_code"@,
        "refactor"@,
        "error_handling"@,
        "git"@,
        "bun"@,
        "npm"@,
        "pnpm"@,
        "yarn"@,
        "database"@,
        "sqlite"@,
        "postgres"@,
        "auth"@,
        "security"@,
        "rule"@,
    ]
}

fn tag_keyword_table() -> (r: Vec<&'static str>)
    ensures
        strs_view(r@) == tag_keywords(),
{
    let r = vec![
        "typescript",
        "javascript",
        "python",
        "rust",
        "react",
        "solidjs",
        "vue",
        "svelte",
        "tailwind",
        "scss",
        "css",
        "clean_code",
        "refactor",
        "error_handling",
        "git",
        "bun",
        "npm",
        "pnpm",
        "yarn",
        "database",
        "sqlite",
        "postgres",
        "auth",
        "security",
        "rule",
    ];
    assert(strs_view(r@) =~= tag_keywords());
    r
}

/// The tag that a bold heading yields: the text between the first `**` and
/// the next `**`, stripped of leading and trailing characters that are not
/// alphanumerics, spaces or `_`, lower-cased, spaces turned into `_`; kept
/// when it is not empty and at most 40 bytes long.
pub open spec fn heading_tag(content: Seq<char>) -> Option<Seq<char>> {
    match first_match(content, "**"@, 0) {
        None => None,
        Some(start) => match first_match(content, "**"@, start + 2) {
            None => None,
            Some(end) => {
                let heading = content.subrange(start + 2, end);
                let clean = trim_by(heading, trim_pred(TrimKind::NonWordNonSpace));
                let tag = replace_all(str_lowercase(clean), seq![' '], seq!['_']);
                if tag.len() > 0 && utf8_len(tag) <= 40 {
                    Some(tag)
                } else {
                    None
                }
            },
        },
    }
}

/// The tags found in a text: its heading tag and every keyword that its
/// lower-cased text contains.
pub open spec fn found_tags(content: Seq<char>) -> Set<Seq<char>> {
    Set::new(
        |t: Seq<char>|
            heading_tag(content) == Some(t) || (tag_keywords().contains(t) && contains_sub(
                str_lowercase(content),
                t,
            )),
    )
}

/// The heading tag of a text, as a list of zero or one tags.
pub open spec fn heading_list(content: Seq<char>) -> Seq<Seq<char>> {
    match heading_tag(content) {
        Some(h) => seq![h],
        None => Seq::empty(),
    }
}

/// The heading tag followed by each keyword of `kws` that the lower-cased
/// text contains, in order, each tag once.
pub open spec fn keyword_fold(content: Seq<char>, kws: Seq<Seq<char>>) -> Seq<Seq<char>>
    decreases kws.len(),
{
    if kws.len() == 0 {
        heading_list(content)
    } else {
        let p = keyword_fold(content, kws.drop_last());
        let k = kws.last();
        if contains_sub(str_lowercase(content), k) && !p.contains(k) {
            p.push(k)
        } else {
            p
        }
    }
}

/// The tags of a text in the order they are produced: the heading tag, then
/// the keywords in table order, or `rule` alone where there is none.
pub open spec fn content_tag_list(content: Seq<char>) -> Seq<Seq<char>> {
    if keyword_fold(content, tag_keywords()).len() == 0 {
        seq!["rule"@]
    } else {
        keyword_fold(content, tag_keywords())
    }
}

/// Every text gets at least one tag.
pub proof fn lemma_tags_never_empty(content: Seq<char>)
    ensures
        content_tag_list(content).len() >= 1,
{
}

/// The tags of a text: the found tags, or `rule` where none was found.
pub open spec fn content_tags(content: Seq<char>) -> Set<Seq<char>> {
    if found_tags(content) == Set::<Seq<char>>::empty() {
        set!["rule"@]
    } else {
        found_tags(content)
    }
}

fn heading_tag_exec(content: &Vec<char>) -> (r: Option<Vec<char>>)
    ensures
        match r {
            Some(t) => heading_tag(content@) == Some(t@),
            None => heading_tag(content@) is None,
        },
{
    let marker = chars_of("**");
    proof {
        reveal_strlit("**");
    }
    assert(marker@.len() == 2);
    let start = match find_first(content, &marker, 0) {
        Some(s) => s,
        None => return None,
    };
    if start > content.len() - 2 {
        assert(matches_at(content@, "**"@, start as int));
        return None;
    }
    let end = match find_first(content, &marker, start + 2) {
        Some(e) => e,
        None => return None,
    };
    let mut heading: Vec<char> = Vec::new();
    let mut k: usize = start + 2;
    assert(matches_at(content@, "**"@, end as int));
    while k < end
        invariant
            start + 2 <= k <= end,
            end <= content.len(),
            heading@ == content@.subrange(start + 2, k as int),
        decreases end - k,
    {
        heading.push(content[k]);
        k = k + 1;
        assert(heading@ =~= content@.subrange(start + 2, k as int));
    }
    let clean = trim_exec(&heading, TrimKind::NonWordNonSpace);
    let lower = lowercase(&clean);
    let space = vec![' '];
    let underscore = vec!['_'];
    let tag = replace_all_exec(&lower, &space, &underscore);
    assert(space@ =~= seq![' ']);
    assert(underscore@ =~= seq!['_']);
    if tag.len() > 0 && utf8_len_exec(&tag) <= 40 {
        Some(tag)
    } else {
        None
    }
}

/// The tags of a memory's text: the tag of its first bold heading, every
/// known keyword it mentions (letter case ignored), or `rule` where there is
/// none. Each tag occurs once; the order is not significant.
pub fn extract_tags_from_content(content: &str) -> (r: Vec<String>)
    ensures
        strings_view(r@) == content_tag_list(content@),
        strings_view(r@).no_duplicates(),
        strings_view(r@).to_set() == content_tags(content@),
{
    let chars = chars_of(content);
    let mut tags: Vec<Vec<char>> = Vec::new();
    let heading = heading_tag_exec(&chars);
    match heading {
        Some(t) => {
            tags.push(t);
            assert(views(tags@) =~= seq![heading_tag(content@)->0]);
            assert(views(tags@) =~= heading_list(content@));
            assert forall|x: Seq<char>| views(tags@).contains(x) <==> heading_tag(content@) == Some(x) by {
                if heading_tag(content@) == Some(x) {
                    assert(views(tags@)[0] == x);
                }
            }
        },
        None => {
        },
    }
    assert(tag_keywords().take(0) =~= Seq::<Seq<char>>::empty());
    assert(views(tags@) =~= keyword_fold(content@, tag_keywords().take(0)));
    let lower = lowercase(&chars);
    let table = tag_keyword_table();
    let ghost h = heading_tag(content@);
    let mut i: usize = 0;
    while i < table.len()
        invariant
            i <= table.len(),
            strs_view(table@) == tag_keywords(),
            lower@ == str_lowercase(content@),
            h == heading_tag(content@),
            views(tags@) == keyword_fold(content@, tag_keywords().take(i as int)),
            views(tags@).no_duplicates(),
            forall|t: Seq<char>|
                #[trigger] views(tags@).contains(t) <==> (h == Some(t) || (tag_keywords().take(
                    i as int,
                ).contains(t) && contains_sub(lower@, t))),
        decreases table.len() - i,
    {
        let kw = chars_of(table[i]);
        assert(tag_keywords()[i as int] == kw@);
        let ghost before = views(tags@);
        let ghost k0 = tag_keywords().take(i as int);
        let ghost k1 = tag_keywords().take(i as int + 1);
        assert(k1.drop_last() =~= k0);
        assert(k1.last() == kw@);
        assert(forall|t: Seq<char>|
            #[trigger] before.contains(t) <==> (h == Some(t) || (k0.contains(t) && contains_sub(
                lower@,
                t,
            ))));
        assert forall|t: Seq<char>| k1.contains(t) <==> (k0.contains(t) || t == kw@) by {
            if k1.contains(t) {
                let j = choose|j: int| 0 <= j < k1.len() && k1[j] == t;
                if j < i {
                    assert(k0[j] == t);
                }
            }
            if k0.contains(t) {
                let j = choose|j: int| 0 <= j < k0.len() && k0[j] == t;
                assert(k1[j] == t);
            }
            if t == kw@ {
                assert(k1[i as int] == t);
            }
        }
        let c = contains_exec(&lower, &kw);
        let dup = if c {
            contains_word(&tags, &kw)
        } else {
            false
        };
        if c && !dup {
            tags.push(kw);
            let ghost after = views(tags@);
            assert(after =~= before.push(kw@));
            assert forall|t: Seq<char>| after.contains(t) <==> (before.contains(t) || t == kw@) by {
                if after.contains(t) && t != kw@ {
                    let j = choose|j: int| 0 <= j < after.len() && after[j] == t;
                    assert(before[j] == t);
                }
                if before.contains(t) {
                    let j = choose|j: int| 0 <= j < before.len() && before[j] == t;
                    assert(after[j] == t);
                }
                if t == kw@ {
                    assert(after[before.len() as int] == t);
                }
            }
            assert forall|t: Seq<char>|
                after.contains(t) <==> (h == Some(t) || (k1.contains(t) && contains_sub(
                    lower@,
                    t,
                ))) by {
                assert(before.contains(t) <==> (h == Some(t) || (k0.contains(t) && contains_sub(
                    lower@,
                    t,
                ))));
            }
            assert(views(tags@).no_duplicates());
        } else {
            assert forall|t: Seq<char>|
                before.contains(t) <==> (h == Some(t) || (k1.contains(t) && contains_sub(
                    lower@,
                    t,
                ))) by {
                assert(before.contains(t) <==> (h == Some(t) || (k0.contains(t) && contains_sub(
                    lower@,
                    t,
                ))));
            }
        }
        i = i + 1;
    }
    assert(tag_keywords().take(table.len() as int) =~= tag_keywords());
    let ghost folded = views(tags@);
    if tags.len() == 0 {
        assert(found_tags(content@) =~= Set::<Seq<char>>::empty()) by {
            assert forall|t: Seq<char>| !found_tags(content@).contains(t) by {
                assert(!views(tags@).contains(t));
                assert(tag_keywords().take(table.len() as int).contains(t) == tag_keywords().contains(t));
            }
        }
        let rule = chars_of("rule");
        tags.push(rule);
        assert(views(tags@) =~= seq!["rule"@]);
        assert(views(tags@) =~= content_tag_list(content@));
        assert(views(tags@).to_set() =~= set!["rule"@]) by {
            assert forall|t: Seq<char>| views(tags@).contains(t) <==> t == "rule"@ by {
                if t == "rule"@ {
                    assert(views(tags@)[0] == t);
                }
            }
        }
    } else {
        assert forall|t: Seq<char>| views(tags@).to_set().contains(t) <==> found_tags(
            content@,
        ).contains(t) by {
            assert(views(tags@).to_set().contains(t) == views(tags@).contains(t));
            assert(tag_keywords().take(table.len() as int).contains(t) == tag_keywords().contains(t));
        }
        assert(views(tags@).to_set() =~= found_tags(content@));
        assert(views(tags@).to_set().contains(views(tags@)[0]));
        assert(found_tags(content@) != Set::<Seq<char>>::empty());
    }
    let mut r: Vec<String> = Vec::new();
    let mut j: usize = 0;
    while j < tags.len()
        invariant
            j <= tags.len(),
            strings_view(r@) == views(tags@).take(j as int),
        decreases tags.len() - j,
    {
        let ghost prev = strings_view(r@);
        assert(tags@[j as int]@ == views(tags@)[j as int]);
        let s = string_of(&tags[j]);
        r.push(s);
        assert(strings_view(r@) =~= prev.push(views(tags@)[j as int]));
        j = j + 1;
    }
    assert(views(tags@).take(tags.len() as int) =~= views(tags@));
    r
}

/// A search word as a quoted prefix term: `"word"*`.
pub open spec fn quoted_prefix(w: Seq<char>) -> Seq<char> {
    seq!['"'] + w + seq!['"', '*']
}

/// The prefix terms of a list of words: one for each word longer than one
/// byte, in order.
pub open spec fn prefix_terms(words: Seq<Seq<char>>) -> Seq<Seq<char>>
    decreases words.len(),
{
    if words.len() == 0 {
        Seq::empty()
    } else {
        let p = prefix_terms(words.drop_last());
        if long_enough(words.last()) {
            p.push(quoted_prefix(words.last()))
        } else {
            p
        }
    }
}

/// The prefix terms of a search string.
pub open spec fn fts_terms(raw: Seq<char>) -> Seq<Seq<char>> {
    prefix_terms(split_words(raw))
}

/// The full-text query for a search string: its prefix terms joined by
/// ` AND `; where it has none, the whole trimmed string without double
/// quotes as one prefix term.
pub open spec fn fts5_query(raw: Seq<char>) -> Seq<char> {
    if fts_terms(raw).len() == 0 {
        quoted_prefix(replace_all(trim_ws(raw), seq!['"'], Seq::<char>::empty()))
    } else {
        join(fts_terms(raw), " AND "@)
    }
}

fn quote_prefix_exec(w: &Vec<char>) -> (r: Vec<char>)
    ensures
        r@ == quoted_prefix(w@),
{
    let mut r: Vec<char> = Vec::new();
    r.push('"');
    append_chars(&mut r, w);
    r.push('"');
    r.push('*');
    assert(r@ =~= quoted_prefix(w@));
    r
}

fn prefix_terms_exec(pieces: &Vec<Vec<char>>) -> (r: Vec<Vec<char>>)
    ensures
        views(r@) == prefix_terms(views(pieces@)),
{
    let ghost words = views(pieces@);
    let mut terms: Vec<Vec<char>> = Vec::new();
    let mut i: usize = 0;
    assert(words.take(0) =~= Seq::<Seq<char>>::empty());
    while i < pieces.len()
        invariant
            i <= pieces.len(),
            words == views(pieces@),
            views(terms@) == prefix_terms(words.take(i as int)),
        decreases pieces.len() - i,
    {
        let ghost prev = views(terms@);
        let w = &pieces[i];
        assert(w@ == words[i as int]);
        assert(words.take(i as int + 1).drop_last() =~= words.take(i as int));
        assert(words.take(i as int + 1).last() == w@);
        if w.len() > 0 && utf8_len_exec(w) > 1 {
            let t = quote_prefix_exec(w);
            terms.push(t);
            assert(views(terms@) =~= prev.push(quoted_prefix(w@)));
        }
        i = i + 1;
    }
    assert(words.take(pieces.len() as int) =~= words);
    terms
}

fn quoted_whole(chars: &Vec<char>) -> (r: Vec<char>)
    ensures
        r@ == quoted_prefix(replace_all(trim_ws(chars@), seq!['"'], Seq::<char>::empty())),
{
    let trimmed = trim_exec(chars, TrimKind::Whitespace);
    let quote = vec!['"'];
    let nothing: Vec<char> = Vec::new();
    let cleaned = replace_all_exec(&trimmed, &quote, &nothing);
    assert(quote@ =~= seq!['"']);
    assert(nothing@ =~= Seq::<char>::empty());
    quote_prefix_exec(&cleaned)
}

/// Builds the full-text query for a search string (see `fts5_query`).
pub fn build_fts5_query(raw: &str) -> (r: String)
    ensures
        r@ == fts5_query(raw@),
{
    let chars = chars_of(raw);
    let pieces = split_words_exec(&chars);
    let terms = prefix_terms_exec(&pieces);
    if terms.len() == 0 {
        let q = quoted_whole(&chars);
        string_of(&q)
    } else {
        let sep = chars_of(" AND ");
        let out = join_exec(&terms, &sep);
        string_of(&out)
    }
}

} // verus!

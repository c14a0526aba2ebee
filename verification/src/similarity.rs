//! Deciding whether a new rule restates or replaces an old one: keyword
//! tokens with synonym folding, a negation guard, and a set-overlap test.
use vstd::prelude::*;

use crate::lexicon::{
    negation_phrase_table, negation_phrases, negation_word_table, negation_words, pairs_view,
    phrase_alias_table, phrase_aliases, stop_word_table, stop_words, strs_view, word_alias_table,
    word_aliases,
};
use crate::text::{
    append_chars, chars_eq, chars_of, contains_exec, contains_sub, contains_word, lowercase,
    replace_all, replace_all_exec, split_words, split_words_exec, str_lowercase, string_of,
    utf8_len, utf8_len_exec, views,
};

verus! {

broadcast use vstd::seq_lib::group_seq_properties;

/// The value a table gives for `t`: the entry with key `t` that comes last
/// (a map built by inserting the entries in order), or `t` itself.
pub open spec fn alias_of(table: Seq<(Seq<char>, Seq<char>)>, t: Seq<char>) -> Seq<char>
    decreases table.len(),
{
    if table.len() == 0 {
        t
    } else if table.last().0 == t {
        table.last().1
    } else {
        alias_of(table.drop_last(), t)
    }
}

/// The canonical spelling of a word.
pub open spec fn normalized_token(t: Seq<char>) -> Seq<char> {
    alias_of(word_aliases(), t)
}

/// A copy of a character vector.
pub fn copy_chars(v: &Vec<char>) -> (r: Vec<char>)
    ensures
        r@ == v@,
{
    let mut r: Vec<char> = Vec::new();
    append_chars(&mut r, v);
    assert(r@ =~= v@);
    r
}

/// The canonical spelling of a word (synonyms folded).
pub fn normalize_token(token: &Vec<char>) -> (r: Vec<char>)
    ensures
        r@ == normalized_token(token@),
{
    let table = word_alias_table();
    let mut j: usize = table.len();
    assert(word_aliases().take(table.len() as int) =~= word_aliases());
    while j > 0
        invariant
            j <= table.len(),
            pairs_view(table@) == word_aliases(),
            alias_of(word_aliases(), token@) == alias_of(word_aliases().take(j as int), token@),
        decreases j,
    {
        j = j - 1;
        let (k, v) = table[j];
        let kv = chars_of(k);
        assert(word_aliases().take(j as int + 1).drop_last() =~= word_aliases().take(j as int));
        assert(word_aliases()[j as int] == (k@, v@));
        assert(word_aliases().take(j as int + 1).last() == (k@, v@));
        if chars_eq(&kv, token) {
            return chars_of(v);
        }
    }
    assert(word_aliases().take(0) =~= Seq::<(Seq<char>, Seq<char>)>::empty());
    copy_chars(token)
}

/// Whether a word is a filler word.
pub fn is_stop_word(word: &Vec<char>) -> (r: bool)
    ensures
        r == stop_words().contains(word@),
{
    let table = stop_word_table();
    let mut i: usize = 0;
    while i < table.len()
        invariant
            i <= table.len(),
            strs_view(table@) == stop_words(),
            forall|k: int| 0 <= k < i ==> stop_words()[k] != word@,
        decreases table.len() - i,
    {
        let w = chars_of(table[i]);
        assert(stop_words()[i as int] == table@[i as int]@);
        if chars_eq(&w, word) {
            return true;
        }
        i = i + 1;
    }
    false
}

/// A lower-cased text carries a negation marker: one of its words is a
/// negation word, or it contains a negation phrase.
pub open spec fn negated_lower(lower: Seq<char>) -> bool {
    ||| exists|i: int|
        0 <= i < negation_words().len() && #[trigger] split_words(lower).contains(
            negation_words()[i],
        )
    ||| exists|j: int|
        0 <= j < negation_phrases().len() && #[trigger] contains_sub(lower, negation_phrases()[j])
}

/// A text carries a negation marker, ignoring letter case.
pub open spec fn negated(text: Seq<char>) -> bool {
    negated_lower(str_lowercase(text))
}

fn negated_lower_exec(lower: &Vec<char>) -> (r: bool)
    ensures
        r == negated_lower(lower@),
{
    let pieces = split_words_exec(lower);
    let words = negation_word_table();
    let mut i: usize = 0;
    while i < words.len()
        invariant
            i <= words.len(),
            strs_view(words@) == negation_words(),
            views(pieces@) == split_words(lower@),
            forall|k: int| 0 <= k < i ==> !split_words(lower@).contains(negation_words()[k]),
        decreases words.len() - i,
    {
        let w = chars_of(words[i]);
        assert(negation_words()[i as int] == words@[i as int]@);
        if contains_word(&pieces, &w) {
            assert(split_words(lower@).contains(negation_words()[i as int]));
            return true;
        }
        i = i + 1;
    }
    let phrases = negation_phrase_table();
    let mut j: usize = 0;
    while j < phrases.len()
        invariant
            j <= phrases.len(),
            strs_view(phrases@) == negation_phrases(),
            forall|k: int| 0 <= k < negation_words().len() ==> !split_words(lower@).contains(
                negation_words()[k],
            ),
            forall|k: int| 0 <= k < j ==> !contains_sub(lower@, negation_phrases()[k]),
        decreases phrases.len() - j,
    {
        let p = chars_of(phrases[j]);
        assert(negation_phrases()[j as int] == phrases@[j as int]@);
        if contains_exec(lower, &p) {
            assert(contains_sub(lower@, negation_phrases()[j as int]));
            return true;
        }
        j = j + 1;
    }
    false
}

/// Whether a text carries a negation marker ("không", "never", "don't", ...),
/// ignoring letter case.
pub fn has_negation(text: &str) -> (r: bool)
    ensures
        r == negated(text@),
{
    let chars = chars_of(text);
    let lower = lowercase(&chars);
    negated_lower_exec(&lower)
}

/// `s` after the first `n` phrase aliases were applied in order.
pub open spec fn apply_phrase_aliases(s: Seq<char>, n: int) -> Seq<char>
    decreases n,
{
    if n <= 0 {
        s
    } else {
        replace_all(
            apply_phrase_aliases(s, n - 1),
            phrase_aliases()[n - 1].0,
            phrase_aliases()[n - 1].1,
        )
    }
}

/// `s` with every phrase alias applied.
pub open spec fn phrase_normalized(s: Seq<char>) -> Seq<char> {
    apply_phrase_aliases(s, phrase_aliases().len() as int)
}

fn phrase_normalize(lower: &Vec<char>) -> (r: Vec<char>)
    ensures
        r@ == phrase_normalized(lower@),
{
    let table = phrase_alias_table();
    let mut s = copy_chars(lower);
    let mut i: usize = 0;
    while i < table.len()
        invariant
            i <= table.len(),
            pairs_view(table@) == phrase_aliases(),
            s@ == apply_phrase_aliases(lower@, i as int),
        decreases table.len() - i,
    {
        let (p, a) = table[i];
        let pv = chars_of(p);
        let av = chars_of(a);
        assert(phrase_aliases()[i as int] == (p@, a@));
        if pv.len() > 0 {
            s = replace_all_exec(&s, &pv, &av);
        }
        i = i + 1;
    }
    s
}

/// The candidate keywords of a lower-cased text: the words of the text
/// after phrase folding, each in canonical spelling.
pub open spec fn candidate_words(lower: Seq<char>) -> Seq<Seq<char>> {
    split_words(phrase_normalized(lower)).map_values(|w: Seq<char>| normalized_token(w))
}

/// A word longer than one byte.
pub open spec fn long_enough(t: Seq<char>) -> bool {
    t.len() > 0 && utf8_len(t) > 1
}

/// A word kept as a keyword: longer than one byte and, when `skip_stop`,
/// not a filler word.
pub open spec fn keeps(t: Seq<char>, skip_stop: bool) -> bool {
    long_enough(t) && (skip_stop ==> !stop_words().contains(t))
}

/// The distinct words of `c` that are kept.
pub open spec fn kept_set(c: Seq<Seq<char>>, skip_stop: bool) -> Set<Seq<char>> {
    Set::new(|t: Seq<char>| c.contains(t) && keeps(t, skip_stop))
}

/// The keyword set of a lower-cased text: the kept candidate words without
/// filler words, or, where that leaves none, with them.
pub open spec fn token_set_lower(lower: Seq<char>) -> Set<Seq<char>> {
    let c = candidate_words(lower);
    if exists|k: int| 0 <= k < c.len() && #[trigger] keeps(c[k], true) {
        kept_set(c, true)
    } else {
        kept_set(c, false)
    }
}

/// The keyword set of a text, ignoring letter case.
pub open spec fn token_set(text: Seq<char>) -> Set<Seq<char>> {
    token_set_lower(str_lowercase(text))
}

fn keeps_exec(w: &Vec<char>, skip_stop: bool) -> (r: bool)
    ensures
        r == keeps(w@, skip_stop),
{
    if w.len() == 0 {
        return false;
    }
    if utf8_len_exec(w) <= 1 {
        return false;
    }
    if skip_stop {
        !is_stop_word(w)
    } else {
        true
    }
}

fn collect_tokens(cands: &Vec<Vec<char>>, skip_stop: bool) -> (r: Vec<Vec<char>>)
    ensures
        views(r@).no_duplicates(),
        views(r@).to_set() == kept_set(views(cands@), skip_stop),
{
    let mut r: Vec<Vec<char>> = Vec::new();
    let mut i: usize = 0;
    assert(views(r@).to_set() =~= kept_set(views(cands@).take(0), skip_stop));
    while i < cands.len()
        invariant
            i <= cands.len(),
            views(r@).no_duplicates(),
            views(r@).to_set() == kept_set(views(cands@).take(i as int), skip_stop),
        decreases cands.len() - i,
    {
        let ghost c = views(cands@);
        let ghost before = views(r@);
        let w = &cands[i];
        assert(c[i as int] == w@);
        let ghost c0 = c.take(i as int);
        let ghost c1 = c.take(i as int + 1);
        assert forall|t: Seq<char>| c1.contains(t) <==> (c0.contains(t) || t == w@) by {
            if c1.contains(t) {
                let k = choose|k: int| 0 <= k < c1.len() && c1[k] == t;
                if k < i {
                    assert(c0[k] == t);
                }
            }
            if c0.contains(t) {
                let k = choose|k: int| 0 <= k < c0.len() && c0[k] == t;
                assert(c1[k] == t);
            }
            if t == w@ {
                assert(c1[i as int] == t);
            }
        }
        let kp = keeps_exec(w, skip_stop);
        let dup = if kp {
            contains_word(&r, w)
        } else {
            false
        };
        if kp && !dup {
            let wc = copy_chars(w);
            r.push(wc);
            let ghost after = views(r@);
            assert(after =~= before.push(w@));
            assert forall|t: Seq<char>|
                after.to_set().contains(t) <==> kept_set(c1, skip_stop).contains(t) by {
                assert(before.to_set().contains(t) == kept_set(c0, skip_stop).contains(t));
                assert(before.to_set().contains(t) == before.contains(t));
                assert(after.to_set().contains(t) == after.contains(t));
                if t == w@ {
                    assert(after[before.len() as int] == w@);
                }
                if after.contains(t) && t != w@ {
                    let k = choose|k: int| 0 <= k < after.len() && after[k] == t;
                    assert(before[k] == t);
                }
                if before.contains(t) {
                    let k = choose|k: int| 0 <= k < before.len() && before[k] == t;
                    assert(after[k] == t);
                }
            }
            assert(after.to_set() =~= kept_set(c1, skip_stop));
        } else {
            assert forall|t: Seq<char>|
                kept_set(c1, skip_stop).contains(t) <==> kept_set(c0, skip_stop).contains(t) by {
                if t == w@ && kp {
                    assert(before.to_set().contains(w@));
                }
            }
            assert(kept_set(c1, skip_stop) =~= kept_set(c0, skip_stop));
        }
        i = i + 1;
    }
    assert(views(cands@).take(cands.len() as int) =~= views(cands@));
    r
}

fn tokens_of_lower(lower: &Vec<char>) -> (r: Vec<Vec<char>>)
    ensures
        views(r@).no_duplicates(),
        views(r@).to_set() == token_set_lower(lower@),
{
    let norm = phrase_normalize(lower);
    let pieces = split_words_exec(&norm);
    let mut cands: Vec<Vec<char>> = Vec::new();
    let mut i: usize = 0;
    while i < pieces.len()
        invariant
            i <= pieces.len(),
            views(pieces@) == split_words(norm@),
            views(cands@) == split_words(norm@).take(i as int).map_values(
                |w: Seq<char>| normalized_token(w),
            ),
        decreases pieces.len() - i,
    {
        let ghost prev = views(cands@);
        assert(pieces@[i as int]@ == split_words(norm@)[i as int]);
        let t = normalize_token(&pieces[i]);
        cands.push(t);
        assert(views(cands@) =~= prev.push(normalized_token(split_words(norm@)[i as int])));
        i = i + 1;
        assert(views(cands@) =~= split_words(norm@).take(i as int).map_values(
            |w: Seq<char>| normalized_token(w),
        ));
    }
    assert(split_words(norm@).take(pieces.len() as int) =~= split_words(norm@));
    assert(views(cands@) == candidate_words(lower@));
    let ghost c = candidate_words(lower@);
    let primary = collect_tokens(&cands, true);
    if primary.len() == 0 {
        assert forall|k: int| 0 <= k < c.len() implies !keeps(#[trigger] c[k], true) by {
            if keeps(c[k], true) {
                assert(kept_set(c, true).contains(c[k]));
                assert(!views(primary@).to_set().contains(c[k]));
            }
        }
        collect_tokens(&cands, false)
    } else {
        proof {
            let t0 = views(primary@)[0];
            assert(views(primary@).to_set().contains(t0));
            assert(kept_set(c, true).contains(t0));
            let k = choose|k: int| 0 <= k < c.len() && c[k] == t0;
            assert(keeps(c[k], true));
        }
        primary
    }
}

/// The views of a list of strings.
pub open spec fn strings_view(v: Seq<String>) -> Seq<Seq<char>> {
    v.map_values(|s: String| s@)
}

/// The distinct keywords of a text: lower-cased, phrase synonyms folded,
/// split on characters that are neither alphanumeric nor `_`, word synonyms
/// folded, one-byte words dropped, and filler words dropped unless that
/// leaves nothing. Each keyword occurs once; the order is not significant.
pub fn tokenize_text(text: &str) -> (r: Vec<String>)
    ensures
        strings_view(r@).no_duplicates(),
        strings_view(r@).to_set() == token_set(text@),
{
    let chars = chars_of(text);
    let lower = lowercase(&chars);
    let toks = tokens_of_lower(&lower);
    let mut r: Vec<String> = Vec::new();
    let mut i: usize = 0;
    while i < toks.len()
        invariant
            i <= toks.len(),
            strings_view(r@) == views(toks@).take(i as int),
        decreases toks.len() - i,
    {
        let ghost prev = strings_view(r@);
        assert(toks@[i as int]@ == views(toks@)[i as int]);
        let s = string_of(&toks[i]);
        r.push(s);
        assert(strings_view(r@) =~= prev.push(views(toks@)[i as int]));
        i = i + 1;
        assert(strings_view(r@) =~= views(toks@).take(i as int));
    }
    assert(views(toks@).take(toks.len() as int) =~= views(toks@));
    r
}

/// Whether two keyword sets overlap enough to call the rules the same: both
/// non-empty, and either the Jaccard index is at least 0.60 or, with at
/// least two keywords on each side, the overlap with the smaller set is at
/// least 0.75 (compared exactly, in integers).
pub open spec fn overlap_ok(a: Set<Seq<char>>, b: Set<Seq<char>>) -> bool {
    if a.len() == 0 || b.len() == 0 {
        false
    } else {
        let i = a.intersect(b).len();
        let u = a.union(b).len();
        let m = if a.len() < b.len() {
            a.len()
        } else {
            b.len()
        };
        5 * i >= 3 * u || (m >= 2 && 4 * i >= 3 * m)
    }
}

/// A new rule restates or replaces an old one: the same text up to letter
/// case; otherwise never when exactly one of them is negated; otherwise when
/// one contains the other (letter case ignored) or their keyword sets
/// overlap enough.
pub open spec fn similar(new_text: Seq<char>, old_text: Seq<char>) -> bool {
    let ln = str_lowercase(new_text);
    let lo = str_lowercase(old_text);
    if ln == lo {
        true
    } else if negated(new_text) != negated(old_text) {
        false
    } else if contains_sub(ln, lo) || contains_sub(lo, ln) {
        true
    } else {
        overlap_ok(token_set(new_text), token_set(old_text))
    }
}

fn count_common(a: &Vec<Vec<char>>, b: &Vec<Vec<char>>) -> (n: usize)
    requires
        views(a@).no_duplicates(),
    ensures
        n == views(a@).to_set().intersect(views(b@).to_set()).len(),
        n <= a.len(),
{
    broadcast use vstd::set::group_set_axioms;

    let ghost bs = views(b@).to_set();
    let mut n: usize = 0;
    let mut i: usize = 0;
    assert(views(a@).take(0).to_set().intersect(bs) =~= Set::<Seq<char>>::empty());
    while i < a.len()
        invariant
            i <= a.len(),
            n <= i,
            views(a@).no_duplicates(),
            bs == views(b@).to_set(),
            n == views(a@).take(i as int).to_set().intersect(bs).len(),
        decreases a.len() - i,
    {
        let ghost av = views(a@);
        let ghost x = av[i as int];
        let ghost prev = av.take(i as int).to_set().intersect(bs);
        assert(av.take(i as int + 1) =~= av.take(i as int).push(x));
        assert(av.take(i as int + 1).to_set() =~= av.take(i as int).to_set().insert(x));
        assert(!av.take(i as int).contains(x)) by {
            if av.take(i as int).contains(x) {
                let k = choose|k: int| 0 <= k < i && av.take(i as int)[k] == x;
                assert(av[k] == av[i as int]);
            }
        }
        assert(prev.finite()) by {
            vstd::seq_lib::seq_to_set_is_finite(av.take(i as int));
        }
        assert(a@[i as int]@ == x);
        if contains_word(b, &a[i]) {
            assert(av.take(i as int + 1).to_set().intersect(bs) =~= prev.insert(x));
            n = n + 1;
        } else {
            assert(av.take(i as int + 1).to_set().intersect(bs) =~= prev);
        }
        i = i + 1;
    }
    assert(views(a@).take(a.len() as int) =~= views(a@));
    n
}

/// Whether `new_text` restates or replaces `old_text` (see `similar`).
pub fn is_similar_or_replacement(new_text: &str, old_text: &str) -> (r: bool)
    ensures
        r == similar(new_text@, old_text@),
{
    let new_chars = chars_of(new_text);
    let old_chars = chars_of(old_text);
    let lower_new = lowercase(&new_chars);
    let lower_old = lowercase(&old_chars);
    if chars_eq(&lower_new, &lower_old) {
        return true;
    }
    if has_negation(new_text) != has_negation(old_text) {
        return false;
    }
    if contains_exec(&lower_new, &lower_old) || contains_exec(&lower_old, &lower_new) {
        return true;
    }
    let set1 = tokens_of_lower(&lower_new);
    let set2 = tokens_of_lower(&lower_old);
    let ghost a = views(set1@).to_set();
    let ghost b = views(set2@).to_set();
    proof {
        views(set1@).unique_seq_to_set();
        views(set2@).unique_seq_to_set();
        vstd::seq_lib::seq_to_set_is_finite(views(set1@));
        vstd::seq_lib::seq_to_set_is_finite(views(set2@));
        vstd::set_lib::lemma_set_intersect_union_lens(a, b);
    }
    if set1.len() == 0 || set2.len() == 0 {
        return false;
    }
    let inter = count_common(&set1, &set2);
    let n1 = set1.len();
    let n2 = set2.len();
    let i = inter as u128;
    let u = (n1 as u128) + (n2 as u128) - i;
    let m = if n1 < n2 {
        n1 as u128
    } else {
        n2 as u128
    };
    assert(u == a.union(b).len());
    5 * i >= 3 * u || (m >= 2 && 4 * i >= 3 * m)
}

/// A text always restates itself.
pub proof fn lemma_similar_reflexive(text: Seq<char>)
    ensures
        similar(text, text),
{
}

/// The relation is symmetric: comparing `a` with `b` gives the same answer
/// as comparing `b` with `a`.
pub proof fn lemma_similar_symmetric(a: Seq<char>, b: Seq<char>)
    ensures
        similar(a, b) == similar(b, a),
{
    let sa = token_set(a);
    let sb = token_set(b);
    assert(sa.intersect(sb) =~= sb.intersect(sa));
    assert(sa.union(sb) =~= sb.union(sa));
}

/// Negation guard: texts that differ beyond letter case, of which exactly
/// one carries a negation marker, never count as the same rule.
pub proof fn lemma_negation_guard(a: Seq<char>, b: Seq<char>)
    requires
        str_lowercase(a) != str_lowercase(b),
        negated(a) != negated(b),
    ensures
        !similar(a, b),
{
}

/// Letter case does not matter: texts with the same lower-case form compare
/// alike against any other text.
pub proof fn lemma_similar_case_insensitive(a: Seq<char>, a2: Seq<char>, b: Seq<char>)
    requires
        str_lowercase(a) == str_lowercase(a2),
    ensures
        similar(a, b) == similar(a2, b),
{
}

/// A text that contains the other (letter case ignored) restates it,
/// unless exactly one of the two is negated.
pub proof fn lemma_containment_is_similar(a: Seq<char>, b: Seq<char>)
    requires
        contains_sub(str_lowercase(a), str_lowercase(b)),
        negated(a) == negated(b),
    ensures
        similar(a, b),
        similar(b, a),
{
}

/// A text is negated exactly when one of its words (lower-cased, split on
/// characters that are neither alphanumeric nor `_`) is one of the negation
/// words listed here, or its lower-cased form contains one of the negation
/// phrases listed here.
pub proof fn lemma_negation_markers(text: Seq<char>)
    ensures
        negated(text) == ({
            let lower = str_lowercase(text);
            let words = seq![
                "không"@,
                "khong"@,
                "chưa"@,
                "chua"@,
                "tránh"@,
                "tranh"@,
                "cấm"@,
                "cam"@,
                "tắt"@,
                "tat"@,
                "hạn"@,
                "chế"@,
                "no"@,
                "not"@,
                "never"@,
                "dont"@,
                "doesnt"@,
                "wont"@,
                "cant"@,
                "cannot"@,
                "refrain"@,
                "avoid"@,
                "disable"@,
                "block"@,
            ];
            let phrases = seq![
                "hạn chế"@,
                "han che"@,
                "bỏ qua"@,
                "bo qua"@,
                "don't"@,
                "doesn't"@,
                "won't"@,
                "can't"@,
            ];
            (exists|i: int| 0 <= i < words.len() && #[trigger] split_words(lower).contains(words[i]))
                || (exists|j: int|
                0 <= j < phrases.len() && #[trigger] contains_sub(lower, phrases[j]))
        }),
{
    let words = seq![
        "không"@,
        "khong"@,
        "chưa"@,
        "chua"@,
        "tránh"@,
        "tranh"@,
        "cấm"@,
        "cam"@,
        "tắt"@,
        "tat"@,
        "hạn"@,
        "chế"@,
        "no"@,
        "not"@,
        "never"@,
        "dont"@,
        "doesnt"@,
        "wont"@,
        "cant"@,
        "cannot"@,
        "refrain"@,
        "avoid"@,
        "disable"@,
        "block"@,
    ];
    let phrases = seq![
        "hạn chế"@,
        "han che"@,
        "bỏ qua"@,
        "bo qua"@,
        "don't"@,
        "doesn't"@,
        "won't"@,
        "can't"@,
    ];
    assert(negation_words() =~= words);
    assert(negation_phrases() =~= phrases);
}

/// Every keyword is longer than one byte, and where some candidate word is
/// not a filler word, no keyword is a filler word.
pub proof fn lemma_tokens_are_keywords(text: Seq<char>, t: Seq<char>)
    requires
        token_set(text).contains(t),
    ensures
        t.len() > 0,
        utf8_len(t) > 1,
        (exists|k: int|
            0 <= k < candidate_words(str_lowercase(text)).len() && #[trigger] keeps(
                candidate_words(str_lowercase(text))[k],
                true,
            )) ==> !stop_words().contains(t),
{
}

} // verus!

//! Character-level text primitives: splitting into words, substring search,
//! replacement, trimming and UTF-8 byte lengths, all over `Seq<char>`.
use vstd::prelude::*;

verus! {

/// What `char::is_alphanumeric` answers for a character (the Unicode
/// Alphabetic or Numeric property).
pub uninterp spec fn char_is_alphanumeric(c: char) -> bool;

/// What `char::is_whitespace` answers for a character: the Unicode
/// White_Space property, which holds of exactly these code points.
pub open spec fn char_is_whitespace(c: char) -> bool {
    let u = c as u32;
    ||| 0x09 <= u <= 0x0D
    ||| u == 0x20
    ||| u == 0x85
    ||| u == 0xA0
    ||| u == 0x1680
    ||| 0x2000 <= u <= 0x200A
    ||| u == 0x2028
    ||| u == 0x2029
    ||| u == 0x202F
    ||| u == 0x205F
    ||| u == 0x3000
}

/// What `str::to_lowercase` gives back for a text.
pub uninterp spec fn str_lowercase(s: Seq<char>) -> Seq<char>;

/// Trusted: `char::is_alphanumeric`. The result is named, not described.
#[verifier::external_body]
pub(crate) fn is_alphanumeric_char(c: char) -> (b: bool)
    ensures
        b == char_is_alphanumeric(c),
{
    c.is_alphanumeric()
}

/// Whether a character is white space (see `char_is_whitespace`).
pub fn is_whitespace_char(c: char) -> (b: bool)
    ensures
        b == char_is_whitespace(c),
{
    let u = c as u32;
    (0x09 <= u && u <= 0x0D) || u == 0x20 || u == 0x85 || u == 0xA0 || u == 0x1680 || (0x2000
        <= u && u <= 0x200A) || u == 0x2028 || u == 0x2029 || u == 0x202F || u == 0x205F || u
        == 0x3000
}

/// Trusted: `str::to_lowercase`, applied to the text that the characters
/// spell. The result is named, not described.
#[verifier::external_body]
pub(crate) fn lowercase(s: &Vec<char>) -> (r: Vec<char>)
    ensures
        r@ == str_lowercase(s@),
{
    let text: String = s.iter().collect();
    text.to_lowercase().chars().collect()
}

/// Trusted: `String::from_iter` over characters; the string spells exactly
/// the given characters.
#[verifier::external_body]
pub(crate) fn string_of(s: &Vec<char>) -> (r: String)
    ensures
        r@ == s@,
{
    s.iter().collect()
}

/// The characters of a string slice, in order.
pub fn chars_of(s: &str) -> (r: Vec<char>)
    ensures
        r@ == s@,
{
    let mut r: Vec<char> = Vec::new();
    for c in it: s.chars()
        invariant
            r@ == it.seq().take(it.index() as int),
            it.seq() == s@,
    {
        r.push(c);
    }
    r
}

/// The views of a sequence of character vectors.
pub open spec fn views(vs: Seq<Vec<char>>) -> Seq<Seq<char>> {
    vs.map_values(|v: Vec<char>| v@)
}

/// A character that separates words: neither alphanumeric nor `_`.
pub open spec fn is_separator(c: char) -> bool {
    !char_is_alphanumeric(c) && c != '_'
}

/// The pieces of `s` between separators, in order, empty pieces included
/// (the behaviour of `str::split` with the separator predicate).
pub open spec fn split_words(s: Seq<char>) -> Seq<Seq<char>>
    decreases s.len(),
{
    if s.len() == 0 {
        seq![Seq::<char>::empty()]
    } else {
        let p = split_words(s.drop_last());
        if is_separator(s.last()) {
            p.push(Seq::<char>::empty())
        } else {
            p.update(p.len() - 1, p.last().push(s.last()))
        }
    }
}

/// Splitting always yields at least one (possibly empty) piece.
pub proof fn lemma_split_words_nonempty(s: Seq<char>)
    ensures
        split_words(s).len() >= 1,
    decreases s.len(),
{
    if s.len() > 0 {
        lemma_split_words_nonempty(s.drop_last());
    }
}

/// Splits a text into the pieces between separator characters.
pub fn split_words_exec(s: &Vec<char>) -> (r: Vec<Vec<char>>)
    ensures
        views(r@) == split_words(s@),
{
    let mut pieces: Vec<Vec<char>> = Vec::new();
    let mut cur: Vec<char> = Vec::new();
    let mut i: usize = 0;
    assert(s@.take(0) =~= Seq::<char>::empty());
    assert(views(pieces@).push(cur@) =~= split_words(s@.take(0)));
    while i < s.len()
        invariant
            i <= s.len(),
            views(pieces@).push(cur@) == split_words(s@.take(i as int)),
        decreases s.len() - i,
    {
        let c = s[i];
        let ghost before = s@.take(i as int);
        assert(s@.take(i as int + 1).drop_last() =~= before);
        assert(s@.take(i as int + 1).last() == c);
        proof {
            lemma_split_words_nonempty(before);
        }
        if !is_alphanumeric_char(c) && c != '_' {
            pieces.push(cur);
            cur = Vec::new();
            assert(views(pieces@).push(cur@) =~= split_words(before).push(Seq::<char>::empty()));
        } else {
            let ghost old_cur = cur@;
            cur.push(c);
            assert(views(pieces@).push(cur@) =~= split_words(before).update(
                split_words(before).len() - 1,
                split_words(before).last().push(c),
            ));
        }
        i = i + 1;
    }
    assert(s@.take(s.len() as int) =~= s@);
    pieces.push(cur);
    assert(views(pieces@) =~= split_words(s@));
    pieces
}

/// Whether two character vectors hold the same characters.
pub fn chars_eq(a: &Vec<char>, b: &Vec<char>) -> (r: bool)
    ensures
        r == (a@ == b@),
{
    if a.len() != b.len() {
        return false;
    }
    let mut i: usize = 0;
    while i < a.len()
        invariant
            i <= a.len(),
            a.len() == b.len(),
            forall|k: int| 0 <= k < i ==> a@[k] == b@[k],
        decreases a.len() - i,
    {
        if a[i] != b[i] {
            return false;
        }
        i = i + 1;
    }
    assert(a@ =~= b@);
    true
}

/// Whether a word occurs in a list of words.
pub fn contains_word(list: &Vec<Vec<char>>, w: &Vec<char>) -> (r: bool)
    ensures
        r == views(list@).contains(w@),
{
    let mut i: usize = 0;
    while i < list.len()
        invariant
            i <= list.len(),
            forall|k: int| 0 <= k < i ==> list@[k]@ != w@,
        decreases list.len() - i,
    {
        if chars_eq(&list[i], w) {
            assert(views(list@)[i as int] == w@);
            return true;
        }
        i = i + 1;
    }
    assert forall|k: int| 0 <= k < views(list@).len() implies views(list@)[k] != w@ by {
        assert(views(list@)[k] == list@[k]@);
    }
    false
}

/// The number of bytes in the UTF-8 encoding of one character.
pub open spec fn utf8_width(c: char) -> nat {
    if (c as u32) < 0x80 {
        1
    } else if (c as u32) < 0x800 {
        2
    } else if (c as u32) < 0x10000 {
        3
    } else {
        4
    }
}

/// The number of bytes in the UTF-8 encoding of a text (what `str::len`
/// answers).
pub open spec fn utf8_len(s: Seq<char>) -> nat
    decreases s.len(),
{
    if s.len() == 0 {
        0
    } else {
        utf8_len(s.drop_last()) + utf8_width(s.last())
    }
}

/// A character takes one to four bytes in UTF-8.
pub proof fn lemma_utf8_len_bounds(s: Seq<char>)
    ensures
        s.len() <= utf8_len(s) <= 4 * s.len(),
    decreases s.len(),
{
    if s.len() > 0 {
        lemma_utf8_len_bounds(s.drop_last());
    }
}

/// The UTF-8 byte length of a text.
pub fn utf8_len_exec(s: &Vec<char>) -> (n: u128)
    ensures
        n == utf8_len(s@),
{
    let mut n: u128 = 0;
    let mut i: usize = 0;
    while i < s.len()
        invariant
            i <= s.len(),
            n == utf8_len(s@.take(i as int)),
            n <= 4 * i,
        decreases s.len() - i,
    {
        let c = s[i];
        let u = c as u32;
        let w: u128 = if u < 0x80 {
            1
        } else if u < 0x800 {
            2
        } else if u < 0x10000 {
            3
        } else {
            4
        };
        assert(s@.take(i as int + 1).drop_last() =~= s@.take(i as int));
        n = n + w;
        i = i + 1;
    }
    assert(s@.take(s.len() as int) =~= s@);
    n
}

/// `p` occurs in `s` starting at position `i`.
pub open spec fn matches_at(s: Seq<char>, p: Seq<char>, i: int) -> bool {
    0 <= i && i + p.len() <= s.len() && s.subrange(i, i + p.len()) == p
}

/// `p` occurs somewhere in `s` (what `str::contains` answers).
pub open spec fn contains_sub(s: Seq<char>, p: Seq<char>) -> bool {
    exists|i: int| matches_at(s, p, i)
}

/// Whether `p` occurs in `s` at position `i`.
pub fn matches_at_exec(s: &Vec<char>, p: &Vec<char>, i: usize) -> (r: bool)
    ensures
        r == matches_at(s@, p@, i as int),
{
    if i > s.len() || p.len() > s.len() - i {
        return false;
    }
    let mut k: usize = 0;
    while k < p.len()
        invariant
            k <= p.len(),
            i + p.len() <= s.len(),
            forall|j: int| 0 <= j < k ==> s@[i + j] == p@[j],
        decreases p.len() - k,
    {
        if s[i + k] != p[k] {
            assert(s@.subrange(i as int, i + p.len())[k as int] != p@[k as int]);
            return false;
        }
        k = k + 1;
    }
    assert(s@.subrange(i as int, i + p.len()) =~= p@);
    true
}

/// The first position at or after `from` where `p` occurs in `s`.
pub fn find_from(s: &Vec<char>, p: &Vec<char>, from: usize) -> (r: Option<usize>)
    ensures
        match r {
            Some(i) => from <= i && matches_at(s@, p@, i as int) && forall|j: int|
                from <= j < i ==> !matches_at(s@, p@, j),
            None => forall|j: int| from <= j ==> !matches_at(s@, p@, j),
        },
{
    if from > s.len() {
        return None;
    }
    let mut i: usize = from;
    while i < s.len()
        invariant
            from <= i <= s.len(),
            forall|j: int| from <= j < i ==> !matches_at(s@, p@, j),
        decreases s.len() - i,
    {
        if matches_at_exec(s, p, i) {
            return Some(i);
        }
        i = i + 1;
    }
    if matches_at_exec(s, p, i) {
        return Some(i);
    }
    None
}

/// Whether `p` occurs in `s`.
pub fn contains_exec(s: &Vec<char>, p: &Vec<char>) -> (r: bool)
    ensures
        r == contains_sub(s@, p@),
{
    match find_from(s, p, 0) {
        Some(i) => true,
        None => {
            assert forall|j: int| !matches_at(s@, p@, j) by {
                if j < 0 {
                }
            }
            false
        },
    }
}

/// `s` with every occurrence of `p` replaced by `r`, scanning from the left
/// and never overlapping (what `str::replace` gives for a non-empty pattern).
pub open spec fn replace_all(s: Seq<char>, p: Seq<char>, r: Seq<char>) -> Seq<char>
    decreases s.len(),
{
    if p.len() == 0 || s.len() < p.len() {
        s
    } else if s.take(p.len() as int) == p {
        r + replace_all(s.skip(p.len() as int), p, r)
    } else {
        seq![s[0]] + replace_all(s.skip(1), p, r)
    }
}

/// Replaces every occurrence of `p` in `s` by `r`.
pub fn replace_all_exec(s: &Vec<char>, p: &Vec<char>, r: &Vec<char>) -> (out: Vec<char>)
    requires
        p.len() > 0,
    ensures
        out@ == replace_all(s@, p@, r@),
{
    let mut out: Vec<char> = Vec::new();
    let mut i: usize = 0;
    assert(s@.skip(0) =~= s@);
    while i < s.len()
        invariant
            i <= s.len(),
            p.len() > 0,
            out@ + replace_all(s@.skip(i as int), p@, r@) == replace_all(s@, p@, r@),
        decreases s.len() - i,
    {
        let ghost rest = s@.skip(i as int);
        if matches_at_exec(s, p, i) {
            assert(rest.take(p.len() as int) =~= s@.subrange(i as int, i + p.len()));
            assert(rest.skip(p.len() as int) =~= s@.skip(i + p.len()));
            let mut k: usize = 0;
            let ghost out0 = out@;
            while k < r.len()
                invariant
                    k <= r.len(),
                    out@ == out0 + r@.take(k as int),
                decreases r.len() - k,
            {
                out.push(r[k]);
                k = k + 1;
                assert(out@ =~= out0 + r@.take(k as int));
            }
            assert(r@.take(r.len() as int) =~= r@);
            assert(out0 + (r@ + replace_all(s@.skip(i + p.len()), p@, r@)) =~= out@ + replace_all(
                s@.skip(i + p.len()),
                p@,
                r@,
            ));
            i = i + p.len();
        } else {
            let fits = p.len() <= s.len() - i;
            if fits {
                assert(rest.take(p.len() as int) =~= s@.subrange(i as int, i + p.len()));
            }
            assert(rest.skip(1) =~= s@.skip(i + 1));
            let ghost out0 = out@;
            out.push(s[i]);
            if fits {
                assert(out0 + (seq![s@[i as int]] + replace_all(s@.skip(i + 1), p@, r@))
                    =~= out@ + replace_all(s@.skip(i + 1), p@, r@));
            } else {
                assert(replace_all(rest, p@, r@) == rest);
                assert(replace_all(s@.skip(i + 1), p@, r@) == s@.skip(i + 1));
                assert(out0 + rest =~= out@ + s@.skip(i + 1));
            }
            i = i + 1;
        }
    }
    assert(s@.skip(s.len() as int) =~= Seq::<char>::empty());
    assert(out@ + Seq::<char>::empty() =~= out@);
    out
}

/// `s` with its leading characters dropped while `f` holds of them.
pub open spec fn trim_start_by(s: Seq<char>, f: spec_fn(char) -> bool) -> Seq<char>
    decreases s.len(),
{
    if s.len() > 0 && f(s[0]) {
        trim_start_by(s.drop_first(), f)
    } else {
        s
    }
}

/// `s` with its trailing characters dropped while `f` holds of them.
pub open spec fn trim_end_by(s: Seq<char>, f: spec_fn(char) -> bool) -> Seq<char>
    decreases s.len(),
{
    if s.len() > 0 && f(s.last()) {
        trim_end_by(s.drop_last(), f)
    } else {
        s
    }
}

/// `s` with leading and trailing characters dropped while `f` holds of them
/// (what `str::trim_matches` gives).
pub open spec fn trim_by(s: Seq<char>, f: spec_fn(char) -> bool) -> Seq<char> {
    trim_end_by(trim_start_by(s, f), f)
}

/// `s` without leading and trailing whitespace (what `str::trim` gives).
pub open spec fn trim_ws(s: Seq<char>) -> Seq<char> {
    trim_by(s, |c: char| char_is_whitespace(c))
}

/// Which characters a trim removes.
pub enum TrimKind {
    /// Unicode whitespace, as `str::trim`.
    Whitespace,
    /// Everything but alphanumerics, spaces and underscores.
    NonWordNonSpace,
}

/// The predicate that a trim of the given kind removes.
pub open spec fn trim_pred(kind: TrimKind) -> spec_fn(char) -> bool {
    match kind {
        TrimKind::Whitespace => |c: char| char_is_whitespace(c),
        TrimKind::NonWordNonSpace => |c: char| !char_is_alphanumeric(c) && c != ' ' && c != '_',
    }
}

fn trimmed_char(kind: &TrimKind, c: char) -> (b: bool)
    ensures
        b == (trim_pred(*kind))(c),
{
    match kind {
        TrimKind::Whitespace => is_whitespace_char(c),
        TrimKind::NonWordNonSpace => !is_alphanumeric_char(c) && c != ' ' && c != '_',
    }
}

proof fn lemma_trim_start_skip(s: Seq<char>, f: spec_fn(char) -> bool, i: int)
    requires
        0 <= i <= s.len(),
        forall|k: int| 0 <= k < i ==> f(s[k]),
    ensures
        trim_start_by(s, f) == trim_start_by(s.skip(i), f),
    decreases i,
{
    if i > 0 {
        assert(s.drop_first().skip(i - 1) =~= s.skip(i));
        lemma_trim_start_skip(s.drop_first(), f, i - 1);
    } else {
        assert(s.skip(0) =~= s);
    }
}

proof fn lemma_trim_end_take(s: Seq<char>, f: spec_fn(char) -> bool, j: int)
    requires
        0 <= j <= s.len(),
        forall|k: int| j <= k < s.len() ==> f(s[k]),
    ensures
        trim_end_by(s, f) == trim_end_by(s.take(j), f),
    decreases s.len() - j,
{
    if j < s.len() {
        assert(s.drop_last().take(j) =~= s.take(j));
        lemma_trim_end_take(s.drop_last(), f, j);
    } else {
        assert(s.take(j) =~= s);
    }
}

/// Drops leading and trailing characters of the given kind.
pub fn trim_exec(s: &Vec<char>, kind: TrimKind) -> (r: Vec<char>)
    ensures
        r@ == trim_by(s@, trim_pred(kind)),
{
    let ghost f = trim_pred(kind);
    let mut i: usize = 0;
    while i < s.len() && trimmed_char(&kind, s[i])
        invariant
            i <= s.len(),
            f == trim_pred(kind),
            forall|k: int| 0 <= k < i ==> f(s@[k]),
        decreases s.len() - i,
    {
        i = i + 1;
    }
    proof {
        lemma_trim_start_skip(s@, f, i as int);
    }
    let ghost mid = s@.skip(i as int);
    assert(trim_start_by(mid, f) == mid);
    let mut j: usize = s.len();
    while j > i && trimmed_char(&kind, s[j - 1])
        invariant
            i <= j <= s.len(),
            f == trim_pred(kind),
            forall|k: int| j <= k < s.len() ==> f(s@[k]),
        decreases j,
    {
        j = j - 1;
    }
    proof {
        assert forall|k: int| j - i <= k < mid.len() implies f(mid[k]) by {
            assert(mid[k] == s@[i + k]);
        }
        lemma_trim_end_take(mid, f, j - i);
        assert(mid.take(j - i) =~= s@.subrange(i as int, j as int));
        if j > i {
            assert(!f(s@[j - 1]));
        }
    }
    let mut r: Vec<char> = Vec::new();
    let mut k: usize = i;
    while k < j
        invariant
            i <= k <= j,
            j <= s.len(),
            r@ == s@.subrange(i as int, k as int),
        decreases j - k,
    {
        r.push(s[k]);
        k = k + 1;
        assert(r@ =~= s@.subrange(i as int, k as int));
    }
    let ghost t = s@.subrange(i as int, j as int);
    assert(trim_end_by(t, f) == t);
    r
}

/// `c` folded to ASCII lower case, as a code point.
pub open spec fn ascii_fold(c: char) -> u32 {
    if 'A' <= c && c <= 'Z' {
        (c as u32 + 32) as u32
    } else {
        c as u32
    }
}

/// Two texts are equal up to ASCII letter case (what
/// `str::eq_ignore_ascii_case` answers).
pub open spec fn eq_ignore_ascii_case(a: Seq<char>, b: Seq<char>) -> bool {
    a.len() == b.len() && forall|k: int| 0 <= k < a.len() ==> ascii_fold(a[k]) == ascii_fold(b[k])
}

fn ascii_fold_exec(c: char) -> (r: u32)
    ensures
        r == ascii_fold(c),
{
    if 'A' <= c && c <= 'Z' {
        (c as u32) + 32
    } else {
        c as u32
    }
}

/// Whether two texts are equal up to ASCII letter case.
pub fn eq_ignore_ascii_case_exec(a: &Vec<char>, b: &Vec<char>) -> (r: bool)
    ensures
        r == eq_ignore_ascii_case(a@, b@),
{
    if a.len() != b.len() {
        return false;
    }
    let mut i: usize = 0;
    while i < a.len()
        invariant
            i <= a.len(),
            a.len() == b.len(),
            forall|k: int| 0 <= k < i ==> ascii_fold(a@[k]) == ascii_fold(b@[k]),
        decreases a.len() - i,
    {
        if ascii_fold_exec(a[i]) != ascii_fold_exec(b[i]) {
            return false;
        }
        i = i + 1;
    }
    true
}

/// Appends all characters of `b` to `a`.
pub fn append_chars(a: &mut Vec<char>, b: &Vec<char>)
    ensures
        final(a)@ == old(a)@ + b@,
{
    let mut k: usize = 0;
    while k < b.len()
        invariant
            k <= b.len(),
            a@ == old(a)@ + b@.take(k as int),
        decreases b.len() - k,
    {
        a.push(b[k]);
        k = k + 1;
        assert(a@ =~= old(a)@ + b@.take(k as int));
    }
    assert(b@.take(b.len() as int) =~= b@);
}

/// Appends all characters of a string slice to `a`.
pub fn append_str(a: &mut Vec<char>, b: &str)
    ensures
        final(a)@ == old(a)@ + b@,
{
    let bv = chars_of(b);
    append_chars(a, &bv);
}

/// The parts joined, with `sep` between consecutive parts.
pub open spec fn join(parts: Seq<Seq<char>>, sep: Seq<char>) -> Seq<char>
    decreases parts.len(),
{
    if parts.len() == 0 {
        Seq::empty()
    } else if parts.len() == 1 {
        parts[0]
    } else {
        join(parts.drop_last(), sep) + sep + parts.last()
    }
}

/// Joins the parts with `sep` between consecutive parts.
pub fn join_exec(parts: &Vec<Vec<char>>, sep: &Vec<char>) -> (r: Vec<char>)
    ensures
        r@ == join(views(parts@), sep@),
{
    let mut out: Vec<char> = Vec::new();
    if parts.len() == 0 {
        return out;
    }
    append_chars(&mut out, &parts[0]);
    assert(out@ =~= parts@[0]@);
    let mut k: usize = 1;
    assert(views(parts@).take(1) =~= seq![views(parts@)[0]]);
    while k < parts.len()
        invariant
            1 <= k <= parts.len(),
            out@ == join(views(parts@).take(k as int), sep@),
        decreases parts.len() - k,
    {
        let ghost prev = views(parts@).take(k as int);
        append_chars(&mut out, sep);
        append_chars(&mut out, &parts[k]);
        assert(views(parts@).take(k as int + 1).drop_last() =~= prev);
        assert(views(parts@).take(k as int + 1).last() == parts@[k as int]@);
        k = k + 1;
    }
    assert(views(parts@).take(parts.len() as int) =~= views(parts@));
    out
}

} // verus!

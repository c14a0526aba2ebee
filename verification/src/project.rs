//! Project identity: path normalisation, the MD5-based project id, IDE
//! installation directories, and the project detected for a workspace.
use vstd::prelude::*;

use md5::{Digest, Md5};

use crate::lexicon::strs_view;
use crate::text::{
    append_chars, chars_of, contains_exec, contains_sub, lowercase, replace_all,
    replace_all_exec, str_lowercase, string_of, trim_exec, trim_pred, trim_ws, TrimKind,
};

verus! {

broadcast use vstd::seq_lib::group_seq_properties;

/// The MD5 digest of a byte sequence.
pub uninterp spec fn md5_digest(data: Seq<u8>) -> Seq<u8>;

/// Trusted: `md5::Md5::digest` (through `digest::Digest`). The digest is
/// named, not described; its length is the `U16` output size that the
/// `md-5` source declares.
#[verifier::external_body]
fn md5_bytes(data: &[u8]) -> (r: Vec<u8>)
    ensures
        r@ == md5_digest(data@),
        r@.len() == 16,
{
    Md5::digest(data).to_vec()
}

/// The Windows verbatim-path prefix `\\?\`.
pub open spec fn verbatim_prefix() -> Seq<char> {
    seq!['\\', '\\', '?', '\\']
}

/// `s` without a leading `\\?\`, when it has one.
pub open spec fn strip_verbatim(s: Seq<char>) -> Seq<char> {
    if s.len() >= 4 && s.take(4) == verbatim_prefix() {
        s.skip(4)
    } else {
        s
    }
}

fn strip_verbatim_exec(s: &Vec<char>) -> (r: Vec<char>)
    ensures
        r@ == strip_verbatim(s@),
{
    let has = s.len() >= 4 && s[0] == '\\' && s[1] == '\\' && s[2] == '?' && s[3] == '\\';
    if has {
        assert(s@.take(4) =~= verbatim_prefix());
    } else if s.len() >= 4 {
        assert(s@.take(4)[0] == s@[0]);
        assert(s@.take(4)[1] == s@[1]);
        assert(s@.take(4)[2] == s@[2]);
        assert(s@.take(4)[3] == s@[3]);
    }
    let start: usize = if has {
        4
    } else {
        0
    };
    let mut r: Vec<char> = Vec::new();
    let mut k: usize = start;
    while k < s.len()
        invariant
            start <= k <= s.len(),
            r@ == s@.subrange(start as int, k as int),
        decreases s.len() - k,
    {
        r.push(s[k]);
        k = k + 1;
        assert(r@ =~= s@.subrange(start as int, k as int));
    }
    assert(s@.subrange(0, s.len() as int) =~= s@);
    r
}

/// The normal form of a path's text: without a `\\?\` prefix, with `\`
/// turned into `/`, lower-cased.
pub open spec fn normalized_path(path: Seq<char>) -> Seq<char> {
    str_lowercase(replace_all(strip_verbatim(path), seq!['\\'], seq!['/']))
}

fn normalize_path_chars(path: &str) -> (r: Vec<char>)
    ensures
        r@ == normalized_path(path@),
{
    let chars = chars_of(path);
    let clean = strip_verbatim_exec(&chars);
    let back = vec!['\\'];
    let slash = vec!['/'];
    let replaced = replace_all_exec(&clean, &back, &slash);
    assert(back@ =~= seq!['\\']);
    assert(slash@ =~= seq!['/']);
    lowercase(&replaced)
}

/// The normal form of a path, given as its text (see `normalized_path`).
pub fn normalize_path(path: &str) -> (r: String)
    ensures
        r@ == normalized_path(path@),
{
    let v = normalize_path_chars(path);
    string_of(&v)
}

/// The path fragments that mark an IDE's own installation directory.
pub open spec fn ide_app_patterns() -> Seq<Seq<char>> {
    seq![
        "appdata/local/programs/antigravity ide"@,
        "appdata/local/programs/antigravity"@,
        "program files/antigravity ide"@,
        "program files (x86)/antigravity ide"@,
        "/usr/share/antigravity"@,
        "/opt/antigravity"@,
        ".local/share/antigravity"@,
        "antigravity.app/contents/macos"@,
        "antigravity ide.app/contents/macos"@,
    ]
}

fn ide_app_pattern_table() -> (r: Vec<&'static str>)
    ensures
        strs_view(r@) == ide_app_patterns(),
{
    let r = vec![
        "appdata/local/programs/antigravity ide",
        "appdata/local/programs/antigravity",
        "program files/antigravity ide",
        "program files (x86)/antigravity ide",
        "/usr/share/antigravity",
        "/opt/antigravity",
        ".local/share/antigravity",
        "antigravity.app/contents/macos",
        "antigravity ide.app/contents/macos",
    ];
    assert(strs_view(r@) =~= ide_app_patterns());
    r
}

/// A path lies in an IDE's installation directory: its normal form contains
/// one of the IDE path fragments.
pub open spec fn is_ide_path(path: Seq<char>) -> bool {
    exists|i: int|
        0 <= i < ide_app_patterns().len() && #[trigger] contains_sub(
            normalized_path(path),
            ide_app_patterns()[i],
        )
}

/// Whether a path (given as its text) lies in an IDE's installation
/// directory rather than in a user's workspace.
pub fn is_ide_app_dir(path: &str) -> (r: bool)
    ensures
        r == is_ide_path(path@),
{
    let norm = normalize_path_chars(path);
    let table = ide_app_pattern_table();
    let mut i: usize = 0;
    while i < table.len()
        invariant
            i <= table.len(),
            strs_view(table@) == ide_app_patterns(),
            norm@ == normalized_path(path@),
            forall|k: int| 0 <= k < i ==> !contains_sub(norm@, ide_app_patterns()[k]),
        decreases table.len() - i,
    {
        let p = chars_of(table[i]);
        assert(ide_app_patterns()[i as int] == p@);
        if contains_exec(&norm, &p) {
            return true;
        }
        i = i + 1;
    }
    false
}

/// The lower-case hexadecimal digit for a value below 16.
pub open spec fn hex_digit(d: nat) -> char {
    if d < 10 {
        ((d + 48) as u32) as char
    } else {
        ((d + 87) as u32) as char
    }
}

/// Bytes in lower-case hexadecimal, two digits per byte.
pub open spec fn hex_lower(bytes: Seq<u8>) -> Seq<char>
    decreases bytes.len(),
{
    if bytes.len() == 0 {
        Seq::empty()
    } else {
        hex_lower(bytes.drop_last()).push(hex_digit((bytes.last() / 16) as nat)).push(
            hex_digit((bytes.last() % 16) as nat),
        )
    }
}

fn hex_digit_exec(d: u8) -> (c: char)
    requires
        d < 16,
    ensures
        c == hex_digit(d as nat),
{
    let table: [char; 16] = [
        '0',
        '1',
        '2',
        '3',
        '4',
        '5',
        '6',
        '7',
        '8',
        '9',
        'a',
        'b',
        'c',
        'd',
        'e',
        'f',
    ];
    let c = table[d as usize];
    assert(c == hex_digit(d as nat)) by {
        reveal_with_fuel(hex_digit, 1);
        assert(('0' as u32) == 48);
        assert(('a' as u32) == 97);
        if d == 0 {
        } else if d == 1 {
        } else if d == 2 {
        } else if d == 3 {
        } else if d == 4 {
        } else if d == 5 {
        } else if d == 6 {
        } else if d == 7 {
        } else if d == 8 {
        } else if d == 9 {
        } else if d == 10 {
        } else if d == 11 {
        } else if d == 12 {
        } else if d == 13 {
        } else if d == 14 {
        } else {
        }
    }
    c
}

fn hex_lower_exec(bytes: &Vec<u8>) -> (r: Vec<char>)
    ensures
        r@ == hex_lower(bytes@),
{
    let mut r: Vec<char> = Vec::new();
    let mut i: usize = 0;
    while i < bytes.len()
        invariant
            i <= bytes.len(),
            r@ == hex_lower(bytes@.take(i as int)),
        decreases bytes.len() - i,
    {
        let b = bytes[i];
        assert(bytes@.take(i as int + 1).drop_last() =~= bytes@.take(i as int));
        r.push(hex_digit_exec(b / 16));
        r.push(hex_digit_exec(b % 16));
        i = i + 1;
    }
    assert(bytes@.take(bytes.len() as int) =~= bytes@);
    r
}

/// The id of a project at a path: the first 12 lower-case hexadecimal
/// digits of the MD5 digest of the UTF-8 bytes of the path's normal form.
pub open spec fn project_id_of(path: Seq<char>) -> Seq<char> {
    hex_lower(md5_digest(vstd::utf8::encode_utf8(normalized_path(path)))).take(12)
}

/// The project id depends on the path's normal form only: paths that
/// differ in letter case or separators alike name one project, and so does
/// a path written with the verbatim prefix `\\?\`.
pub proof fn lemma_project_id_laws(a: Seq<char>, b: Seq<char>)
    ensures
        normalized_path(a) == normalized_path(b) ==> project_id_of(a) == project_id_of(b),
        strip_verbatim(a) == a ==> project_id_of(verbatim_prefix() + a) == project_id_of(a),
{
    let v = verbatim_prefix() + a;
    assert(v.take(4) =~= verbatim_prefix());
    assert(v.skip(4) =~= a);
    assert(strip_verbatim(v) == a);
}

proof fn lemma_hex_lower_len(bytes: Seq<u8>)
    ensures
        hex_lower(bytes).len() == 2 * bytes.len(),
    decreases bytes.len(),
{
    if bytes.len() > 0 {
        lemma_hex_lower_len(bytes.drop_last());
    }
}

/// The id of the project at a path, given as its text (see
/// `project_id_of`).
pub fn hash_project_path(path: &str) -> (r: String)
    ensures
        r@ == project_id_of(path@),
        r@.len() == 12,
{
    let norm = normalize_path(path);
    let bytes = norm.as_str().as_bytes();
    let digest = md5_bytes(bytes);
    let hex = hex_lower_exec(&digest);
    proof {
        lemma_hex_lower_len(digest@);
    }
    let mut r: Vec<char> = Vec::new();
    let mut k: usize = 0;
    while k < 12
        invariant
            k <= 12,
            hex@.len() == 32,
            r@ == hex@.take(k as int),
        decreases 12 - k,
    {
        r.push(hex[k]);
        k = k + 1;
        assert(r@ =~= hex@.take(k as int));
    }
    string_of(&r)
}

/// A project as detected for a workspace: its id, display name and path.
#[derive(Clone, Debug)]
pub struct DetectedProject {
    pub id: String,
    pub name: String,
    pub path: String,
}

/// What the search for a workspace's root directory found: the root's path
/// text and its last path component, when it has one.
#[derive(Clone, Debug)]
pub struct ProjectRoot {
    pub path: String,
    pub file_name: Option<String>,
}

/// The display name for a detected root: the override when it is not blank
/// (trimmed), else the root's last component, else `unknown-project`.
pub open spec fn detected_name(name_override: Option<Seq<char>>, file_name: Option<Seq<char>>) -> Seq<
    char,
> {
    match name_override {
        Some(n) if trim_ws(n).len() > 0 => trim_ws(n),
        _ => match file_name {
            Some(f) => f,
            None => "unknown-project"@,
        },
    }
}

/// The project for a workspace, from what the root search found.
///
/// Where a root was found, the id is `project_id_of` the root's path, the
/// path is the root's path without a `\\?\` prefix, and the name is
/// `detected_name`. Where none was found and no path was given, the active
/// workspace (path, id, name), when there is one, gives the project, the
/// name override (as given) taking the place of its name; otherwise the
/// search's error is returned.
pub fn get_auto_detected_project(
    name_override: Option<&str>,
    path_override: Option<&str>,
    root: Result<ProjectRoot, String>,
    active_workspace: Option<(String, String, String)>,
) -> (r: Result<DetectedProject, String>)
    ensures
        match root {
            Ok(rt) => r matches Ok(p) && p.id@ == project_id_of(rt.path@) && p.path@ == strip_verbatim(
                rt.path@,
            ) && p.name@ == detected_name(
                match name_override {
                    Some(n) => Some(n@),
                    None => None,
                },
                match rt.file_name {
                    Some(f) => Some(f@),
                    None => None,
                },
            ),
            Err(e) => match (path_override, active_workspace) {
                (None, Some((wpath, pid, pname))) => r matches Ok(p) && p.id@ == pid@ && p.path@
                    == wpath@ && p.name@ == match name_override {
                    Some(n) => n@,
                    None => pname@,
                },
                _ => r matches Err(e2) && e2@ == e@,
            },
        },
{
    match root {
        Ok(rt) => {
            let id = hash_project_path(rt.path.as_str());
            let raw = chars_of(rt.path.as_str());
            let clean = strip_verbatim_exec(&raw);
            let path = string_of(&clean);
            let name = match name_override {
                Some(n) => {
                    let nv = chars_of(n);
                    let t = trim_exec(&nv, TrimKind::Whitespace);
                    if t.len() > 0 {
                        string_of(&t)
                    } else {
                        match rt.file_name {
                            Some(f) => f,
                            None => "unknown-project".to_string(),
                        }
                    }
                },
                None => match rt.file_name {
                    Some(f) => f,
                    None => "unknown-project".to_string(),
                },
            };
            Ok(DetectedProject { id, name, path })
        },
        Err(e) => {
            if path_override.is_none() {
                match active_workspace {
                    Some((wpath, pid, pname)) => {
                        let name = match name_override {
                            Some(n) => n.to_string(),
                            None => pname,
                        };
                        return Ok(DetectedProject { id: pid, name, path: wpath });
                    },
                    None => {
                    },
                }
            }
            Err(e)
        },
    }
}

} // verus!

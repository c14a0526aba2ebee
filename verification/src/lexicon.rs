//! The word tables that the similarity rules use: filler words, phrase and
//! word synonyms, and negation markers.
use vstd::prelude::*;

verus! {

/// The texts of a list of string slices.
pub open spec fn strs_view(v: Seq<&str>) -> Seq<Seq<char>> {
    v.map_values(|s: &str| s@)
}

/// The texts of a list of pairs of string slices.
pub open spec fn pairs_view(v: Seq<(&str, &str)>) -> Seq<(Seq<char>, Seq<char>)> {
    v.map_values(|p: (&str, &str)| (p.0@, p.1@))
}

/// Filler words that carry no meaning for comparing two rules.
pub open spec fn stop_words() -> Seq<Seq<char>> {
    seq![
        "sử"@,
        "dụng"@,
        "dùng"@,
        "cho"@,
        "sang"@,
        "chuyển"@,
        "làm"@,
        "với"@,
        "vào"@,
        "ra"@,
        "từ"@,
        "đến"@,
        "bằng"@,
        "theo"@,
        "dự"@,
        "án"@,
        "project"@,
        "cấu"@,
        "hình"@,
        "chạy"@,
        "ở"@,
        "đổi"@,
        "chính"@,
        "để"@,
        "phần"@,
        "thực"@,
        "hiện"@,
        "nên"@,
        "bật"@,
        "tạo"@,
        "viết"@,
        "luôn"@,
        "ưu"@,
        "tiên"@,
        "tuyệt"@,
        "đối"@,
        "tính"@,
        "năng"@,
        "phát"@,
        "triển"@,
        "xây"@,
        "dựng"@,
        "quản"@,
        "lý"@,
        "package"@,
        "kết"@,
        "nối"@,
        "tại"@,
        "khi"@,
        "management"@,
        "app"@,
        "application"@,
        "is"@,
        "are"@,
        "for"@,
        "to"@,
        "the"@,
        "a"@,
        "an"@,
        "with"@,
        "in"@,
        "on"@,
        "at"@,
        "by"@,
        "use"@,
        "using"@,
        "switch"@,
        "change"@,
        "set"@,
        "run"@,
        "running"@,
        "always"@,
    ]
}

/// Multi-word phrases and the single word each one stands for, applied in
/// this order.
pub open spec fn phrase_aliases() -> Seq<(Seq<char>, Seq<char>)> {
    seq![
        ("bộ nhớ tạm"@, "cache"@),
        ("bo nho tam"@, "cache"@),
        ("khởi động"@, "startup"@),
        ("khoi dong"@, "startup"@),
        ("di động"@, "mobile"@),
        ("di dong"@, "mobile"@),
        ("xác thực"@, "auth"@),
        ("xac thuc"@, "auth"@),
        ("tài liệu"@, "doc"@),
        ("tai lieu"@, "doc"@),
        ("mã nguồn"@, "code"@),
        ("ma nguon"@, "code"@),
        ("ứng dụng"@, "app"@),
        ("ung dung"@, "app"@),
        ("hạn chế"@, "refrain"@),
        ("han che"@, "refrain"@),
    ]
}

/// Words and the canonical word each one stands for.
pub open spec fn word_aliases() -> Seq<(Seq<char>, Seq<char>)> {
    seq![
        ("postgres"@, "postgresql"@),
        ("postgresql"@, "postgresql"@),
        ("psql"@, "postgresql"@),
        ("js"@, "javascript"@),
        ("javascript"@, "javascript"@),
        ("ts"@, "typescript"@),
        ("typescript"@, "typescript"@),
        ("reactjs"@, "react"@),
        ("react"@, "react"@),
        ("vuejs"@, "vue"@),
        ("vue"@, "vue"@),
        ("db"@, "database"@),
        ("database"@, "database"@),
        ("csdl"@, "database"@),
        ("config"@, "config"@),
        ("configuration"@, "config"@),
        ("configs"@, "config"@),
        ("repo"@, "repository"@),
        ("repository"@, "repository"@),
        ("env"@, "environment"@),
        ("environment"@, "environment"@),
        ("auth"@, "auth"@),
        ("authentication"@, "auth"@),
        ("mongo"@, "mongodb"@),
        ("mongodb"@, "mongodb"@),
        ("gha"@, "github_actions"@),
        ("github_actions"@, "github_actions"@),
        ("tailwind"@, "tailwindcss"@),
        ("tailwindcss"@, "tailwindcss"@),
        ("code"@, "code"@),
        ("source"@, "code"@),
        ("mobile"@, "mobile"@),
        ("naming"@, "style"@),
        ("convention"@, "style"@),
        ("style"@, "style"@),
        ("doc"@, "doc"@),
        ("docs"@, "doc"@),
        ("documentation"@, "doc"@),
        ("startup"@, "startup"@),
        ("purge"@, "purge"@),
        ("clean"@, "purge"@),
        ("clear"@, "purge"@),
        ("xóa"@, "purge"@),
        ("cache"@, "cache"@),
        ("k8s"@, "kubernetes"@),
        ("kubernetes"@, "kubernetes"@),
        ("scss"@, "sass"@),
        ("sass"@, "sass"@),
        ("gcp"@, "gcp"@),
        ("google_cloud"@, "gcp"@),
    ]
}

/// Words that mark a negated rule.
pub open spec fn negation_words() -> Seq<Seq<char>> {
    seq![
        "không"@,
        "khong"@,
        "chưa"@,
        "chua"@,
        "tránh"@,
        "tranh"@,
        "cấm"@,
        "cam"@,
        "tắt"@,
        "tat"@,
        "hạn"@,
        "chế"@,
        "no"@,
        "not"@,
        "never"@,
        "dont"@,
        "doesnt"@,
        "wont"@,
        "cant"@,
        "cannot"@,
        "refrain"@,
        "avoid"@,
        "disable"@,
        "block"@,
    ]
}

/// Phrases that mark a negated rule.
pub open spec fn negation_phrases() -> Seq<Seq<char>> {
    seq![
        "hạn chế"@,
        "han che"@,
        "bỏ qua"@,
        "bo qua"@,
        "don't"@,
        "doesn't"@,
        "won't"@,
        "can't"@,
    ]
}

pub fn stop_word_table() -> (r: Vec<&'static str>)
    ensures
        strs_view(r@) == stop_words(),
{
    let r = vec![
        "sử",
        "dụng",
        "dùng",
        "cho",
        "sang",
        "chuyển",
        "làm",
        "với",
        "vào",
        "ra",
        "từ",
        "đến",
        "bằng",
        "theo",
        "dự",
        "án",
        "project",
        "cấu",
        "hình",
        "chạy",
        "ở",
        "đổi",
        "chính",
        "để",
        "phần",
        "thực",
        "hiện",
        "nên",
        "bật",
        "tạo",
        "viết",
        "luôn",
        "ưu",
        "tiên",
        "tuyệt",
        "đối",
        "tính",
        "năng",
        "phát",
        "triển",
        "xây",
        "dựng",
        "quản",
        "lý",
        "package",
        "kết",
        "nối",
        "tại",
        "khi",
        "management",
        "app",
        "application",
        "is",
        "are",
        "for",
        "to",
        "the",
        "a",
        "an",
        "with",
        "in",
        "on",
        "at",
        "by",
        "use",
        "using",
        "switch",
        "change",
        "set",
        "run",
        "running",
        "always",
    ];
    assert(strs_view(r@) =~= stop_words());
    r
}

pub fn phrase_alias_table() -> (r: Vec<(&'static str, &'static str)>)
    ensures
        pairs_view(r@) == phrase_aliases(),
{
    let r = vec![
        ("bộ nhớ tạm", "cache"),
        ("bo nho tam", "cache"),
        ("khởi động", "startup"),
        ("khoi dong", "startup"),
        ("di động", "mobile"),
        ("di dong", "mobile"),
        ("xác thực", "auth"),
        ("xac thuc", "auth"),
        ("tài liệu", "doc"),
        ("tai lieu", "doc"),
        ("mã nguồn", "code"),
        ("ma nguon", "code"),
        ("ứng dụng", "app"),
        ("ung dung", "app"),
        ("hạn chế", "refrain"),
        ("han che", "refrain"),
    ];
    assert(pairs_view(r@) =~= phrase_aliases());
    r
}

pub fn word_alias_table() -> (r: Vec<(&'static str, &'static str)>)
    ensures
        pairs_view(r@) == word_aliases(),
{
    let r = vec![
        ("postgres", "postgresql"),
        ("postgresql", "postgresql"),
        ("psql", "postgresql"),
        ("js", "javascript"),
        ("javascript", "javascript"),
        ("ts", "typescript"),
        ("typescript", "typescript"),
        ("reactjs", "react"),
        ("react", "react"),
        ("vuejs", "vue"),
        ("vue", "vue"),
        ("db", "database"),
        ("database", "database"),
        ("csdl", "database"),
        ("config", "config"),
        ("configuration", "config"),
        ("configs", "config"),
        ("repo", "repository"),
        ("repository", "repository"),
        ("env", "environment"),
        ("environment", "environment"),
        ("auth", "auth"),
        ("authentication", "auth"),
        ("mongo", "mongodb"),
        ("mongodb", "mongodb"),
        ("gha", "github_actions"),
        ("github_actions", "github_actions"),
        ("tailwind", "tailwindcss"),
        ("tailwindcss", "tailwindcss"),
        ("code", "code"),
        ("source", "code"),
        ("mobile", "mobile"),
        ("naming", "style"),
        ("convention", "style"),
        ("style", "style"),
        ("doc", "doc"),
        ("docs", "doc"),
        ("documentation", "doc"),
        ("startup", "startup"),
        ("purge", "purge"),
        ("clean", "purge"),
        ("clear", "purge"),
        ("xóa", "purge"),
        ("cache", "cache"),
        ("k8s", "kubernetes"),
        ("kubernetes", "kubernetes"),
        ("scss", "sass"),
        ("sass", "sass"),
        ("gcp", "gcp"),
        ("google_cloud", "gcp"),
    ];
    assert(pairs_view(r@) =~= word_aliases());
    r
}

pub fn negation_word_table() -> (r: Vec<&'static str>)
    ensures
        strs_view(r@) == negation_words(),
{
    let r = vec![
        "không",
        "khong",
        "chưa",
        "chua",
        "tránh",
        "tranh",
        "cấm",
        "cam",
        "tắt",
        "tat",
        "hạn",
        "chế",
        "no",
        "not",
        "never",
        "dont",
        "doesnt",
        "wont",
        "cant",
        "cannot",
        "refrain",
        "avoid",
        "disable",
        "block",
    ];
    assert(strs_view(r@) =~= negation_words());
    r
}

pub fn negation_phrase_table() -> (r: Vec<&'static str>)
    ensures
        strs_view(r@) == negation_phrases(),
{
    let r = vec![
        "hạn chế",
        "han che",
        "bỏ qua",
        "bo qua",
        "don't",
        "doesn't",
        "won't",
        "can't",
    ];
    assert(strs_view(r@) =~= negation_phrases());
    r
}

} // verus!

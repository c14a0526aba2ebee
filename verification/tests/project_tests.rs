use apm_memory::project::{
    get_auto_detected_project, hash_project_path, is_ide_app_dir, normalize_path, ProjectRoot,
};

#[test]
fn normalize_path_lowercases_and_uses_forward_slashes() {
    assert_eq!(normalize_path("C:\\Users\\Me\\Proj"), "c:/users/me/proj");
    assert_eq!(normalize_path("/Home/U/Proj"), "/home/u/proj");
    assert_eq!(normalize_path(""), "");
}

#[test]
fn normalize_path_drops_verbatim_prefix() {
    assert_eq!(normalize_path("\\\\?\\C:\\Users\\Me\\Proj"), "c:/users/me/proj");
    // The prefix only counts at the start.
    assert_eq!(normalize_path("C:\\\\?\\x"), "c://?/x");
}

#[test]
fn ide_app_dirs_are_recognised() {
    assert!(is_ide_app_dir("C:\\Users\\me\\AppData\\Local\\Programs\\Antigravity\\resources"));
    assert!(is_ide_app_dir("/opt/antigravity/bin"));
    assert!(is_ide_app_dir("/Applications/Antigravity.app/Contents/MacOS"));
    assert!(is_ide_app_dir("/home/me/.local/share/antigravity/x"));
    assert!(!is_ide_app_dir("/home/me/projects/antigravity-notes"));
    assert!(!is_ide_app_dir("/home/me/project"));
}

#[test]
fn project_hash_is_first_twelve_hex_digits_of_md5() {
    assert_eq!(hash_project_path(""), "d41d8cd98f00");
    assert_eq!(hash_project_path("abc"), "900150983cd2");
    assert_eq!(hash_project_path("/home/u/proj"), "4fafce67053e");
}

#[test]
fn project_hash_ignores_case_and_separators() {
    assert_eq!(hash_project_path("ABC"), "900150983cd2");
    assert_eq!(hash_project_path("C:\\Users\\Me\\Proj"), "d3067982c714");
    assert_eq!(hash_project_path("\\\\?\\c:/users/me/proj"), "d3067982c714");
    assert_eq!(hash_project_path("/Home/U/Proj").len(), 12);
}

fn root(path: &str, file_name: Option<&str>) -> Result<ProjectRoot, String> {
    Ok(ProjectRoot { path: path.to_string(), file_name: file_name.map(|f| f.to_string()) })
}

#[test]
fn detected_project_from_root() {
    let p = get_auto_detected_project(None, None, root("/home/u/proj", Some("proj")), None).unwrap();
    assert_eq!(p.id, "4fafce67053e");
    assert_eq!(p.name, "proj");
    assert_eq!(p.path, "/home/u/proj");
}

#[test]
fn detected_project_name_override() {
    let p = get_auto_detected_project(Some("  My App "), None, root("/home/u/proj", Some("proj")), None)
        .unwrap();
    assert_eq!(p.name, "My App");
    let blank = get_auto_detected_project(Some("   "), None, root("/home/u/proj", Some("proj")), None)
        .unwrap();
    assert_eq!(blank.name, "proj");
    let nameless = get_auto_detected_project(None, None, root("/", None), None).unwrap();
    assert_eq!(nameless.name, "unknown-project");
}

#[test]
fn detected_project_strips_verbatim_prefix_from_path() {
    let p = get_auto_detected_project(None, None, root("\\\\?\\C:\\Users\\Me\\Proj", Some("Proj")), None)
        .unwrap();
    assert_eq!(p.path, "C:\\Users\\Me\\Proj");
    assert_eq!(p.id, "d3067982c714");
}

#[test]
fn detected_project_falls_back_to_active_workspace() {
    let ws = Some(("/w/p".to_string(), "abc123".to_string(), "Saved".to_string()));
    let p = get_auto_detected_project(None, None, Err("no root".to_string()), ws.clone()).unwrap();
    assert_eq!(p.id, "abc123");
    assert_eq!(p.name, "Saved");
    assert_eq!(p.path, "/w/p");
    let named = get_auto_detected_project(Some(" X "), None, Err("no root".to_string()), ws.clone())
        .unwrap();
    assert_eq!(named.name, " X ");
    // With an explicit path the error stands.
    let e = get_auto_detected_project(None, Some("/x"), Err("no root".to_string()), ws);
    assert_eq!(e.err().unwrap(), "no root");
    let none = get_auto_detected_project(None, None, Err("bad".to_string()), None);
    assert_eq!(none.err().unwrap(), "bad");
}

#[test]
fn verbatim_prefix_names_the_same_project() {
    assert_eq!(hash_project_path("\\\\?\\/home/u/proj"), hash_project_path("/home/u/proj"));
    assert_eq!(hash_project_path("/HOME/u/PROJ"), hash_project_path("/home/u/proj"));
}

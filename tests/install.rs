use syntax_launcher::layout::{
    get_installation_directory, installation_directory_under, is_complete, plan_prune, plan_repair,
    running_name_in, settings_marker_path, variant_executable, version_directory, DirEntry,
};
use syntax_launcher::uri::ClientVariant;

fn path(parts: &[&str]) -> Vec<String> {
    parts.iter().map(|s| s.to_string()).collect()
}

fn file(name: &str) -> DirEntry {
    DirEntry { name: name.to_string(), is_dir: false }
}

fn dir(name: &str) -> DirEntry {
    DirEntry { name: name.to_string(), is_dir: true }
}

#[test]
fn layout_paths() {
    let root = installation_directory_under(&path(&["/home/a/.local/share"]));
    assert_eq!(root, path(&["/home/a/.local/share", "Syntax"]));
    let v = version_directory(&root, "version-1a2b");
    assert_eq!(v, path(&["/home/a/.local/share", "Syntax", "Versions", "version-1a2b"]));
    assert_eq!(settings_marker_path(&v).last().unwrap(), "AppSettings.xml");
    let exe = variant_executable(&v, ClientVariant::Default);
    assert_eq!(exe[4..], path(&["SyntaxPlayerBeta.exe"])[..]);
    let exe = variant_executable(&v, ClientVariant::VariantA);
    assert_eq!(exe[4..], path(&["Client2018", "SyntaxPlayerBeta.exe"])[..]);
    let exe = variant_executable(&v, ClientVariant::VariantB);
    assert_eq!(exe[4..], path(&["Client2020", "SyntaxPlayerBeta.exe"])[..]);
}

#[test]
fn installation_directory_ends_in_root_name() {
    if let Some(p) = get_installation_directory() {
        assert_eq!(p.last().unwrap(), "Syntax");
    }
}

#[test]
fn complete_needs_both_markers() {
    assert!(is_complete(&vec![file("AppSettings.xml"), file("SyntaxPlayerBeta.exe"), dir("content")]));
    assert!(!is_complete(&vec![file("AppSettings.xml")]));
    assert!(!is_complete(&vec![file("SyntaxPlayerBeta.exe")]));
    assert!(!is_complete(&Vec::new()));
}

#[test]
fn repair_of_complete_directory_is_a_no_op_twice() {
    let entries = vec![file("AppSettings.xml"), file("SyntaxPlayerBeta.exe"), dir("content")];
    for _ in 0..2 {
        let plan = plan_repair(&entries, None);
        assert!(plan.remove_files.is_empty());
        assert!(plan.remove_dirs.is_empty());
        assert!(!plan.fetch_assets);
    }
}

#[test]
fn repair_of_partial_directory_clears_all_but_running_executable() {
    let entries = vec![
        file("SyntaxPlayerLauncher.exe"),
        dir("content"),
        file("SyntaxPlayerBeta.exe"),
        dir("shaders"),
        file("partial.dll"),
    ];
    let plan = plan_repair(&entries, Some("SyntaxPlayerLauncher.exe"));
    assert_eq!(plan.remove_files, path(&["SyntaxPlayerBeta.exe", "partial.dll"]));
    assert_eq!(plan.remove_dirs, path(&["content", "shaders"]));
    assert!(plan.fetch_assets);
    let plan = plan_repair(&entries, None);
    assert_eq!(plan.remove_files, path(&["SyntaxPlayerLauncher.exe", "SyntaxPlayerBeta.exe", "partial.dll"]));
}

#[test]
fn repair_of_empty_directory_fetches() {
    let plan = plan_repair(&Vec::new(), None);
    assert!(plan.remove_files.is_empty() && plan.remove_dirs.is_empty());
    assert!(plan.fetch_assets);
}

#[test]
fn prune_leaves_only_target() {
    let entries = vec![dir("version-old1"), dir("version-new"), file("stray.txt"), dir("version-old2")];
    let stale = plan_prune(&entries, "version-new");
    assert_eq!(stale, path(&["version-old1", "version-old2"]));
    let left: Vec<&DirEntry> = entries.iter().filter(|e| e.is_dir && !stale.contains(&e.name)).collect();
    assert_eq!(left.len(), 1);
    assert_eq!(left[0].name, "version-new");
}

#[test]
fn prune_without_siblings_removes_nothing() {
    assert!(plan_prune(&vec![dir("version-new")], "version-new").is_empty());
}

#[test]
fn running_name_only_directly_inside() {
    let d = path(&["/r", "Syntax", "Versions", "v1"]);
    assert_eq!(running_name_in(&path(&["/r", "Syntax", "Versions", "v1", "L.exe"]), &d), Some("L.exe".to_string()));
    assert_eq!(running_name_in(&path(&["/r", "Syntax", "Versions", "v2", "L.exe"]), &d), None);
    assert_eq!(running_name_in(&path(&["/r", "Syntax", "Versions", "v1", "x", "L.exe"]), &d), None);
}

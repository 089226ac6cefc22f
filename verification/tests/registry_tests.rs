use lyre_audio::registry::{
    create_plugin_registry_from_settings, is_plugin, settings_plugin_paths, PathProbe,
    PluginRegistry, ScanEntry, StoredPaths,
};

fn dir(canonical: &str) -> PathProbe {
    PathProbe { exists: true, is_dir: true, canonical: Ok(canonical.to_string()) }
}

fn entry(path: &str, is_file: bool, extension: Option<&str>) -> ScanEntry {
    ScanEntry { path: path.to_string(), is_file, extension: extension.map(|e| e.to_string()) }
}

#[test]
fn new_registry_is_empty() {
    let r = PluginRegistry::new();
    assert!(r.get_plugin_paths().is_empty());
    assert!(r.get_discovered_plugins().is_empty());
}

#[test]
fn clean_path_strips_verbatim_prefix() {
    assert_eq!(PluginRegistry::clean_path("\\\\?\\C:\\VST3"), "C:\\VST3");
    assert_eq!(PluginRegistry::clean_path("/usr/lib/vst3"), "/usr/lib/vst3");
    assert_eq!(PluginRegistry::clean_path("\\\\?"), "\\\\?");
    assert_eq!(PluginRegistry::clean_path("\\\\?\\"), "");
    assert_eq!(PluginRegistry::clean_path(""), "");
}

#[test]
fn add_plugin_path_appends_cleaned_canonical_form() {
    let mut r = PluginRegistry::new();
    assert_eq!(r.add_plugin_path("plugins".to_string(), &dir("\\\\?\\C:\\plugins")), Ok(()));
    assert_eq!(r.add_plugin_path("./more".to_string(), &dir("/opt/more")), Ok(()));
    assert_eq!(r.get_plugin_paths().to_vec(), vec!["C:\\plugins".to_string(), "/opt/more".to_string()]);
}

#[test]
fn add_plugin_path_refuses_missing_path() {
    let mut r = PluginRegistry::new();
    let probe = PathProbe { exists: false, is_dir: false, canonical: Err("x".to_string()) };
    assert_eq!(
        r.add_plugin_path("/nowhere".to_string(), &probe),
        Err("Path does not exist: /nowhere".to_string())
    );
    assert!(r.get_plugin_paths().is_empty());
}

#[test]
fn add_plugin_path_refuses_file() {
    let mut r = PluginRegistry::new();
    let probe = PathProbe { exists: true, is_dir: false, canonical: Ok("/a/file".to_string()) };
    assert_eq!(
        r.add_plugin_path("/a/file".to_string(), &probe),
        Err("Path is not a directory: /a/file".to_string())
    );
    assert!(r.get_plugin_paths().is_empty());
}

#[test]
fn add_plugin_path_reports_canonicalize_failure() {
    let mut r = PluginRegistry::new();
    let probe = PathProbe { exists: true, is_dir: true, canonical: Err("denied".to_string()) };
    assert_eq!(
        r.add_plugin_path("/locked".to_string(), &probe),
        Err("Failed to canonicalize path '/locked': denied".to_string())
    );
    assert!(r.get_plugin_paths().is_empty());
}

#[test]
fn remove_plugin_path_removes_every_occurrence() {
    let mut r = PluginRegistry::new();
    r.add_plugin_path("a".to_string(), &dir("/a")).unwrap();
    r.add_plugin_path("b".to_string(), &dir("/b")).unwrap();
    r.add_plugin_path("a".to_string(), &dir("/a")).unwrap();
    r.add_plugin_path("c".to_string(), &dir("/c")).unwrap();
    r.remove_plugin_path("/a");
    assert_eq!(r.get_plugin_paths().to_vec(), vec!["/b".to_string(), "/c".to_string()]);
    r.remove_plugin_path("/zzz");
    assert_eq!(r.get_plugin_paths().to_vec(), vec!["/b".to_string(), "/c".to_string()]);
}

#[test]
fn set_plugin_paths_replaces_and_stops_at_first_refusal() {
    let mut r = PluginRegistry::new();
    r.add_plugin_path("old".to_string(), &dir("/old")).unwrap();
    let ok = r.set_plugin_paths(vec![("a".to_string(), dir("/a")), ("b".to_string(), dir("/b"))]);
    assert_eq!(ok, Ok(()));
    assert_eq!(r.get_plugin_paths().to_vec(), vec!["/a".to_string(), "/b".to_string()]);
    let missing = PathProbe { exists: false, is_dir: false, canonical: Err("".to_string()) };
    let bad = r.set_plugin_paths(vec![
        ("x".to_string(), dir("/x")),
        ("gone".to_string(), missing),
        ("y".to_string(), dir("/y")),
    ]);
    assert_eq!(bad, Err("Path does not exist: gone".to_string()));
    assert_eq!(r.get_plugin_paths().to_vec(), vec!["/x".to_string()]);
    assert_eq!(r.set_plugin_paths(vec![]), Ok(()));
    assert!(r.get_plugin_paths().is_empty());
}

#[test]
fn scan_keeps_plugin_files_in_walk_order() {
    let mut r = PluginRegistry::new();
    r.add_plugin("stale.vst3".to_string());
    let entries = vec![
        entry("/p/a.vst3", true, Some("vst3")),
        entry("/p/dir.vst3", false, Some("vst3")),
        entry("/p/readme.txt", true, Some("txt")),
        entry("/p/B.VST3", true, Some("VST3")),
        entry("/p/noext", true, None),
        entry("/p/c.Vst3", true, Some("Vst3")),
        entry("/p/d.vst33", true, Some("vst33")),
        entry("/p/e.vst", true, Some("vst")),
    ];
    let found = r.scan_plugins(&entries).unwrap();
    let expected =
        vec!["/p/a.vst3".to_string(), "/p/B.VST3".to_string(), "/p/c.Vst3".to_string()];
    assert_eq!(found, expected);
    assert_eq!(r.get_discovered_plugins().to_vec(), expected);
}

#[test]
fn is_plugin_needs_a_regular_file_with_the_extension() {
    assert!(is_plugin(&entry("x.vst3", true, Some("vst3"))));
    assert!(is_plugin(&entry("x.vSt3", true, Some("vSt3"))));
    assert!(!is_plugin(&entry("x.vst3", false, Some("vst3"))));
    assert!(!is_plugin(&entry("x", true, None)));
    assert!(!is_plugin(&entry("x.vst4", true, Some("vst4"))));
    assert!(!is_plugin(&entry("x.dll", true, Some("dll"))));
}

#[test]
fn add_and_remove_plugin() {
    let mut r = PluginRegistry::new();
    r.add_plugin("one.vst3".to_string());
    r.add_plugin("two.vst3".to_string());
    r.add_plugin("one.vst3".to_string());
    assert_eq!(r.get_discovered_plugins().len(), 3);
    r.remove_plugin("one.vst3");
    assert_eq!(r.get_discovered_plugins().to_vec(), vec!["two.vst3".to_string()]);
    assert!(r.get_plugin_paths().is_empty());
}

#[test]
fn stored_list_wins_and_non_text_elements_are_left_out() {
    let stored = StoredPaths::List(vec![Some("/a".to_string()), None, Some("/b".to_string())]);
    assert_eq!(
        settings_plugin_paths(&stored, "/home/u/.local/share/Programs/Common/VST3", "/VST3"),
        vec!["/a".to_string(), "/b".to_string()]
    );
    let empty = StoredPaths::List(vec![]);
    assert!(settings_plugin_paths(&empty, "x", "y").is_empty());
}

#[test]
fn default_search_directories() {
    assert_eq!(
        settings_plugin_paths(&StoredPaths::NotAList, "/data/Programs/Common/VST3", "/VST3"),
        vec![
            "/data/Programs/Common/VST3".to_string(),
            "/Program Files/Common Files/VST3".to_string(),
            "/Program Files (x86)/Common Files/VST3".to_string(),
            "/VST3".to_string(),
        ]
    );
    assert_eq!(
        settings_plugin_paths(&StoredPaths::Missing, "/data/Programs/Common/VST3", "/VST3"),
        vec![
            "/data/Programs/Common/VST3".to_string(),
            "/Program Files/Common Files/VST3".to_string(),
            "/Program Files (x86)/Common Files/VST3".to_string(),
            "/VST3".to_string(),
            "C:\\Coding\\Projects\\lyre\\plugins".to_string(),
        ]
    );
}

#[test]
fn registry_from_settings_keeps_accepted_directories() {
    let missing = PathProbe { exists: false, is_dir: false, canonical: Err("".to_string()) };
    let r = create_plugin_registry_from_settings(vec![
        ("a".to_string(), dir("/a")),
        ("b".to_string(), dir("\\\\?\\D:\\b")),
        ("gone".to_string(), missing),
        ("c".to_string(), dir("/c")),
    ]);
    assert_eq!(r.get_plugin_paths().to_vec(), vec!["/a".to_string(), "D:\\b".to_string()]);
    assert!(r.get_discovered_plugins().is_empty());
}

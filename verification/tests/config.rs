use cookie_commander::config::{AppConfig, StrMap, StrSet, SupportedEditor};

#[test]
fn default_configuration() {
    let cfg = AppConfig::default();
    for ext in [
        "txt", "md", "rs", "cs", "py", "java", "c", "cpp", "h", "csproj", "json", "toml", "js",
        "ts", "html", "css", "yaml", "yml", "sh", "bat",
    ] {
        assert!(cfg.text_extensions.contains(ext), "{}", ext);
    }
    assert_eq!(cfg.text_extensions.len(), 20);
    assert!(!cfg.text_extensions.contains("png"));
    assert!(!cfg.editors.contains_key("vscode"));
    assert_eq!(cfg.max_prettify_size_kb, 512);
}

#[test]
fn extension_sets_sort_and_keep_one_of_each() {
    let mut set = StrSet::new();
    assert!(set.insert("rs".to_string()));
    assert!(set.insert("json".to_string()));
    assert!(set.insert("c".to_string()));
    assert!(set.insert("bat".to_string()));
    assert!(!set.insert("json".to_string()));
    assert_eq!(set.len(), 4);
    assert_eq!(set.sorted(), vec!["bat", "c", "json", "rs"]);
    let mut upper = StrSet::new();
    upper.insert("b".to_string());
    upper.insert("B".to_string());
    upper.insert("ab".to_string());
    upper.insert("a".to_string());
    assert_eq!(upper.sorted(), vec!["B", "a", "ab", "b"]);
}

#[test]
fn editor_maps_replace_values() {
    let mut map = StrMap::new();
    assert!(map.get("vscode").is_none());
    map.insert("vscode".to_string(), "/a".to_string());
    map.insert("other".to_string(), "/b".to_string());
    map.insert("vscode".to_string(), "/c".to_string());
    assert_eq!(map.get("vscode").unwrap(), "/c");
    assert_eq!(map.get("other").unwrap(), "/b");
    assert_eq!(map.pairs().len(), 2);
    map.clear();
    assert!(!map.contains_key("other"));
    assert!(map.pairs().is_empty());
}

#[test]
fn editor_identity() {
    assert_eq!(SupportedEditor::VsCode.id(), "vscode");
    assert_eq!(SupportedEditor::VsCode.display_name(), "VS Code");
}

#[test]
fn editor_search_order() {
    let dirs = vec!["/usr/bin".to_string(), "/opt/bin/".to_string()];
    let c = SupportedEditor::VsCode.candidates(&dirs, Some("/home/me"));
    assert_eq!(c.len(), 4);
    assert_eq!(c[0].path, "/usr/bin/code");
    assert!(c[0].must_be_file);
    assert_eq!(c[1].path, "/opt/bin/code");
    assert_eq!(
        c[2].path,
        "/Applications/Visual Studio Code.app/Contents/Resources/app/bin/code"
    );
    assert!(!c[2].must_be_file);
    assert_eq!(
        c[3].path,
        "/home/me/Applications/Visual Studio Code.app/Contents/Resources/app/bin/code"
    );
    let none = SupportedEditor::VsCode.candidates(&vec![], None);
    assert_eq!(none.len(), 1);
    let picked = SupportedEditor::first_usable(c, &vec![false, true, true, false]);
    assert_eq!(picked.as_deref(), Some("/opt/bin/code"));
    assert!(SupportedEditor::first_usable(none, &vec![false]).is_none());
}

#[test]
fn test_config_serialization_sorted() {
    let mut extensions = StrSet::new();
    extensions.insert("rs".to_string());
    extensions.insert("json".to_string());
    extensions.insert("c".to_string());
    extensions.insert("bat".to_string());

    let cfg = AppConfig { text_extensions: extensions, editors: StrMap::new(), max_prettify_size_kb: 512 };

    // `config.json` stores the extensions in sorted order, the editors as an object.
    let json_str = format!(
        "{{\"text_extensions\":{},\"editors\":{{}}}}",
        serde_json::to_string(&cfg.text_extensions.sorted()).unwrap()
    );

    assert_eq!(json_str, r#"{"text_extensions":["bat","c","json","rs"],"editors":{}}"#);
}

#[test]
fn search_dirs_join_with_one_separator() {
    let dirs = vec!["".to_string(), "/".to_string(), "bin".to_string()];
    let c = SupportedEditor::VsCode.candidates(&dirs, None);
    assert_eq!(c[0].path, "code");
    assert_eq!(c[1].path, "/code");
    assert_eq!(c[2].path, "bin/code");
}

#[test]
fn copies_keep_their_contents() {
    let mut set = StrSet::new();
    set.insert("rs".to_string());
    set.insert("md".to_string());
    let copy = set.clone();
    assert_eq!(copy.sorted(), vec!["md", "rs"]);
    let mut map = StrMap::new();
    map.insert("vscode".to_string(), "/bin/code".to_string());
    let copy = map.clone();
    assert_eq!(copy.get("vscode").map(|s| s.as_str()), Some("/bin/code"));
    let cfg = AppConfig::default().clone();
    assert_eq!(cfg.text_extensions.len(), 20);
    assert_eq!(cfg.max_prettify_size_kb, 512);
}

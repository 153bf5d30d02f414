use ditloop_desktop::filesystem::{
    detect_language, exceeds_read_limit, file_entry, language_for_extension, sort_entries,
    MAX_READ_BYTES,
};
use std::path::PathBuf;

#[test]
fn test_detect_language_common_types() {
    assert_eq!(detect_language(&PathBuf::from("main.rs")), "rust");
    assert_eq!(detect_language(&PathBuf::from("app.tsx")), "typescript");
    assert_eq!(detect_language(&PathBuf::from("app.ts")), "typescript");
    assert_eq!(detect_language(&PathBuf::from("index.js")), "javascript");
    assert_eq!(detect_language(&PathBuf::from("script.py")), "python");
    assert_eq!(detect_language(&PathBuf::from("config.json")), "json");
    assert_eq!(detect_language(&PathBuf::from("config.yaml")), "yaml");
    assert_eq!(detect_language(&PathBuf::from("config.yml")), "yaml");
    assert_eq!(detect_language(&PathBuf::from("Cargo.toml")), "toml");
    assert_eq!(detect_language(&PathBuf::from("README.md")), "markdown");
    assert_eq!(detect_language(&PathBuf::from("style.css")), "css");
    assert_eq!(detect_language(&PathBuf::from("index.html")), "html");
    assert_eq!(detect_language(&PathBuf::from("run.sh")), "shell");
}

#[test]
fn test_detect_language_unknown() {
    assert_eq!(detect_language(&PathBuf::from("file.xyz")), "plaintext");
    assert_eq!(detect_language(&PathBuf::from("Makefile")), "plaintext");
}

#[test]
fn language_table_edges() {
    assert_eq!(language_for_extension("Dockerfile"), "dockerfile");
    assert_eq!(language_for_extension("hpp"), "cpp");
    assert_eq!(language_for_extension("RS"), "plaintext");
    assert_eq!(language_for_extension(""), "plaintext");
    assert_eq!(detect_language(&PathBuf::from("/a/b/c.tar.go")), "go");
    assert_eq!(detect_language(&PathBuf::from(".bashrc")), "plaintext");
}

#[test]
fn read_limit_is_one_mebibyte() {
    assert_eq!(MAX_READ_BYTES, 1_048_576);
    assert!(!exceeds_read_limit(1_048_576));
    assert!(exceeds_read_limit(1_048_577));
}

#[test]
fn entries_hidden_by_leading_dot() {
    assert!(file_entry(".git".to_string(), "/w/.git".to_string(), true, 0, None).is_hidden);
    assert!(!file_entry("a.git".to_string(), "/w/a.git".to_string(), false, 3, Some(7)).is_hidden);
}

#[test]
fn entries_directories_first_then_case_insensitive_name() {
    let make = |n: &str, d: bool| file_entry(n.to_string(), format!("/w/{}", n), d, 0, None);
    let sorted = sort_entries(vec![
        make("b.txt", false),
        make("Zeta", true),
        make("A.txt", false),
        make("alpha", true),
        make("a.txt", false),
    ]);
    let names: Vec<&str> = sorted.iter().map(|e| e.name.as_str()).collect();
    assert_eq!(names, vec!["alpha", "Zeta", "A.txt", "a.txt", "b.txt"]);
}

use ditloop_desktop::config::{
    default_workspace_type, expand_tilde, expand_workspace_paths, find_profile,
    identity_from_output, profile_not_found_message, DitLoopConfigFile, ProfileConfig,
    WorkspaceConfig,
};

fn workspace(name: &str, path: &str, profile: &str) -> WorkspaceConfig {
    WorkspaceConfig {
        name: name.to_string(),
        path: path.to_string(),
        workspace_type: default_workspace_type(),
        profile: profile.to_string(),
        aidf: false,
    }
}

fn profile(name: &str, email: &str) -> ProfileConfig {
    ProfileConfig {
        name: name.to_string(),
        email: email.to_string(),
        ssh_host: None,
        ssh_key: None,
        platform: None,
    }
}

#[test]
fn test_tilde_expansion_in_workspace_paths() {
    let mut config = DitLoopConfigFile {
        profiles: Vec::new(),
        workspaces: vec![
            workspace("my-project", "~/projects/my-project", "personal"),
            workspace("abs-project", "/home/user/work", "work"),
        ],
    };
    let home_str = dirs::home_dir().unwrap().to_string_lossy().to_string();
    expand_workspace_paths(&mut config, &home_str);
    assert!(config.workspaces[0].path.starts_with(&home_str));
    assert!(!config.workspaces[0].path.contains('~'));
    // Absolute path should be unchanged
    assert_eq!(config.workspaces[1].path, "/home/user/work");
}

#[test]
fn tilde_expansion_cases() {
    assert_eq!(expand_tilde("~", "/home/u"), "/home/u");
    assert_eq!(expand_tilde("~/a/~b", "/home/u"), "/home/u/a/~b");
    assert_eq!(expand_tilde("/abs/~x", "/home/u"), "/abs/~x");
    assert_eq!(expand_tilde("rel", "/home/u"), "rel");
    assert_eq!(expand_tilde("~other", "/home/u"), "/home/uother");
    assert_eq!(expand_tilde("", "/home/u"), "");
}

#[test]
fn expansion_leaves_other_fields() {
    let mut config = DitLoopConfigFile {
        profiles: vec![("p".to_string(), profile("P", "p@x"))],
        workspaces: vec![workspace("w", "~/w", "p")],
    };
    expand_workspace_paths(&mut config, "/h");
    assert_eq!(config.workspaces[0].path, "/h/w");
    assert_eq!(config.workspaces[0].name, "w");
    assert_eq!(config.workspaces[0].workspace_type, "single");
    assert_eq!(config.workspaces[0].profile, "p");
    assert_eq!(config.profiles.len(), 1);
}

#[test]
fn default_config_is_empty() {
    let config = DitLoopConfigFile::default();
    assert!(config.profiles.is_empty());
    assert!(config.workspaces.is_empty());
    assert_eq!(default_workspace_type(), "single");
}

#[test]
fn profiles_found_by_name() {
    let config = DitLoopConfigFile {
        profiles: vec![
            ("personal".to_string(), profile("Test User", "test@example.com")),
            ("work".to_string(), profile("Work User", "work@example.com")),
        ],
        workspaces: Vec::new(),
    };
    assert_eq!(find_profile(&config, "work").unwrap().email, "work@example.com");
    assert_eq!(find_profile(&config, "personal").unwrap().name, "Test User");
    assert!(find_profile(&config, "missing").is_none());
    assert_eq!(profile_not_found_message("missing"), "Profile 'missing' not found in config");
}

#[test]
fn identity_output_trimmed_or_none() {
    assert_eq!(identity_from_output(true, "  me@example.com\n"), Some("me@example.com".to_string()));
    assert_eq!(identity_from_output(true, " \n"), None);
    assert_eq!(identity_from_output(false, "me@example.com"), None);
}

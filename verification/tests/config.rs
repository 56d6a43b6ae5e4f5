use tree_pool::config::{
    default_max_trees, repo_config_path, user_config_path_in, Config, ConfigError,
};

#[test]
fn default_config_values() {
    let config = Config::default();
    assert_eq!(config.max_trees, 16);
    assert_eq!(config.root, "");
}

#[test]
fn default_max_trees_is_sixteen() {
    assert_eq!(default_max_trees(), 16);
}

#[test]
fn resolve_root_empty_returns_home() {
    let config = Config::default();
    let root = config.resolve_root("/repo").ok().unwrap();
    assert_eq!(root, dirs::home_dir().unwrap().to_string_lossy().to_string());
}

#[test]
fn resolve_root_absolute() {
    let config = Config {
        max_trees: 16,
        root: "/tmp/custom".to_string(),
    };
    let root = config.resolve_root("/repo").ok().unwrap();
    assert_eq!(root, "/tmp/custom");
}

#[test]
fn resolve_root_relative() {
    let config = Config {
        max_trees: 16,
        root: "worktrees".to_string(),
    };
    let root = config.resolve_root("/repo").ok().unwrap();
    assert_eq!(root, "/repo/worktrees");
}

#[test]
fn resolve_root_with_expansion_result() {
    let config = Config {
        max_trees: 16,
        root: "$HOME/pools".to_string(),
    };
    let root = config
        .resolve_root_with("/repo", None, Ok("/home/u/pools".to_string()))
        .ok()
        .unwrap();
    assert_eq!(root, "/home/u/pools");
    let rel = config
        .resolve_root_with("/repo", None, Ok("pools".to_string()))
        .ok()
        .unwrap();
    assert_eq!(rel, "/repo/pools");
    let failure = ("HOME".to_string(), "environment variable not found".to_string());
    match config.resolve_root_with("/repo", None, Err(failure)) {
        Err(ConfigError::Expand { root, var, cause }) => {
            assert_eq!(root, "$HOME/pools");
            assert_eq!(var, "HOME");
            assert_eq!(cause, "environment variable not found");
        }
        _ => panic!("expected an expansion error"),
    }
}

#[test]
fn resolve_root_without_home() {
    let config = Config::default();
    assert!(matches!(
        config.resolve_root_with("/repo", None, Ok(String::new())),
        Err(ConfigError::NoHome)
    ));
}

#[test]
fn resolve_root_unknown_variable() {
    let config = Config {
        max_trees: 16,
        root: "$TREE_POOL_SURELY_UNSET_VARIABLE_XYZ/p".to_string(),
    };
    assert!(matches!(
        config.resolve_root("/repo"),
        Err(ConfigError::Expand { .. })
    ));
}

#[test]
fn load_returns_defaults_when_no_config() {
    let config = Config::load(None, None);
    assert_eq!(config.max_trees, 16);
}

#[test]
fn load_prefers_repo_config() {
    let repo = Config {
        max_trees: 3,
        root: String::new(),
    };
    let user = Config {
        max_trees: 5,
        root: "x".to_string(),
    };
    assert_eq!(Config::load(Some(repo), None).max_trees, 3);
    let repo = Config {
        max_trees: 3,
        root: String::new(),
    };
    assert_eq!(Config::load(Some(repo), Some(user)).max_trees, 3);
    let user = Config {
        max_trees: 5,
        root: "x".to_string(),
    };
    let chosen = Config::load(None, Some(user));
    assert_eq!(chosen.max_trees, 5);
    assert_eq!(chosen.root, "x");
}

#[test]
fn default_toml_appends_comment() {
    let content = Config::default_toml("max_trees = 16\nroot = \"\"\n");
    assert!(content.starts_with("max_trees = 16\nroot = \"\"\n\n# root = \"\""));
    assert!(content.ends_with("# Default: home directory (~/.tree-pool/)\n"));
}

#[test]
fn config_error_messages() {
    assert_eq!(ConfigError::NoHome.message(), "could not determine home directory");
    let e = ConfigError::Expand {
        root: "$NOPE/x".to_string(),
        var: "NOPE".to_string(),
        cause: "environment variable not found".to_string(),
    };
    assert_eq!(
        e.message(),
        "failed to expand env vars in root: $NOPE/x: error looking key 'NOPE' up: \
         environment variable not found"
    );
}

#[test]
fn config_file_paths() {
    assert_eq!(repo_config_path("/repo"), "/repo/tree-pool.toml");
    assert_eq!(user_config_path_in("/home/u/.config"), "/home/u/.config/tree-pool/config.toml");
}

#[test]
fn unknown_variable_message_gives_cause() {
    let config = Config {
        max_trees: 16,
        root: "$TREE_POOL_SURELY_UNSET_VARIABLE_XYZ/p".to_string(),
    };
    let e = config.resolve_root("/repo").err().unwrap();
    assert_eq!(
        e.message(),
        "failed to expand env vars in root: $TREE_POOL_SURELY_UNSET_VARIABLE_XYZ/p: \
         error looking key 'TREE_POOL_SURELY_UNSET_VARIABLE_XYZ' up: environment variable not found"
    );
}

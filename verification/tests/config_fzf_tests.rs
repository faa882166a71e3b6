use sonic_git::config::{AliasEntry, Config};
use sonic_git::fzf::{select, select_options, FzfOptions};
use sonic_git::GError;

#[test]
fn test_resolve_alias() {
    let aliases = vec![AliasEntry { name: "s".to_string(), value: "sonic-switch -i".to_string() }];

    let config = Config { root: None, aliases };

    let resolved = config.resolve_alias("s");
    assert_eq!(resolved, Some(vec!["sonic-switch".to_string(), "-i".to_string()]));
}

#[test]
fn test_resolve_alias_unknown_name() {
    let config = Config { root: None, aliases: Vec::new() };
    assert_eq!(config.resolve_alias("s"), None);
}

#[test]
fn test_resolve_alias_first_entry_wins() {
    let aliases = vec![
        AliasEntry { name: "s".to_string(), value: "first".to_string() },
        AliasEntry { name: "s".to_string(), value: "second".to_string() },
    ];
    let config = Config { root: None, aliases };
    assert_eq!(config.resolve_alias("s"), Some(vec!["first".to_string()]));
}

#[test]
fn test_fzf_options_default() {
    let opts = FzfOptions::default();
    let args = opts.to_args();
    assert!(args.contains(&"--reverse".to_string()));
    assert!(args.contains(&"--border".to_string()));
}

#[test]
fn test_fzf_options_custom() {
    let opts = FzfOptions {
        height: Some("50%".to_string()),
        reverse: false,
        border: true,
        prompt: Some("Select: ".to_string()),
        preview: None,
    };
    let args = opts.to_args();
    assert!(args.contains(&"--height=50%".to_string()));
    assert!(!args.contains(&"--reverse".to_string()));
    assert!(args.contains(&"--prompt=Select: ".to_string()));
}

#[test]
fn test_fzf_args_order() {
    let opts = FzfOptions::default();
    assert_eq!(opts.to_args(), vec!["--height=40%", "--reverse", "--border"]);
}

#[test]
fn test_select_options_appends_colon() {
    let opts = select_options("Select branch to delete");
    assert_eq!(opts.prompt, Some("Select branch to delete: ".to_string()));
    assert_eq!(opts.height, Some("40%".to_string()));
    assert!(opts.reverse);
    assert!(opts.border);
    assert_eq!(opts.preview, None);
}

#[test]
fn test_select_outcome() {
    assert_eq!(select(Some("picked".to_string())).unwrap(), "picked");
    assert!(matches!(select(None), Err(GError::NoSelection)));
}

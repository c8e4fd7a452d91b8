use credhelper::{Config, CredentialHelper};

#[test]
fn exact_key_carries_full_url() {
    let helper = CredentialHelper::new("https://example.com/foo/bar");
    assert_eq!(
        helper.exact_key("username"),
        "credential.https://example.com/foo/bar.username"
    );
}

#[test]
fn url_key_from_https_url() {
    let helper = CredentialHelper::new("https://example.com/foo/bar");
    assert_eq!(
        helper.url_key("helper"),
        Some("credential.https://example.com.helper".to_string())
    );
}

#[test]
fn url_git_scheme_decomposes() {
    let helper = CredentialHelper::new("git://example.com/foo.git");
    assert_eq!(
        helper.url_key("helper"),
        Some("credential.git://example.com.helper".to_string())
    );
}

#[test]
fn url_ssh_scheme_decomposes() {
    let helper = CredentialHelper::new("ssh://git@example.com/repo.git");
    assert_eq!(
        helper.url_key("helper"),
        Some("credential.ssh://example.com.helper".to_string())
    );
}

#[test]
fn unparsable_url_yields_no_url_key() {
    let helper = CredentialHelper::new("not a url at all");
    assert_eq!(helper.url_key("helper"), None);
}

#[test]
fn unparsable_url_still_collects_global_helper() {
    let mut cfg = Config::new();
    cfg.set_str("credential.helper", "foo");
    let mut helper = CredentialHelper::new("not a url at all");
    helper.config(&cfg);
    assert_eq!(helper.commands().as_slice(), ["git credential-foo"]);
}

#[test]
fn username_setter_overwrites() {
    let mut helper = CredentialHelper::new("https://example.com/foo/bar");
    helper.username(Some("alice"));
    assert_eq!(helper.username, Some("alice".to_string()));
    helper.username(None);
    assert_eq!(helper.username, None);
}

#[test]
fn config_keeps_preseeded_username() {
    let mut cfg = Config::new();
    cfg.set_str("credential.username", "from-config");
    let mut helper = CredentialHelper::new("https://example.com/foo/bar");
    helper.username(Some("seeded"));
    helper.config(&cfg);
    assert_eq!(helper.username, Some("seeded".to_string()));
}

#[test]
fn username_resolution_prefers_exact_key() {
    let mut cfg = Config::new();
    cfg.set_str("credential.https://example.com/foo/bar.username", "exact");
    cfg.set_str("credential.https://example.com.username", "pattern");
    cfg.set_str("credential.username", "global");
    let mut helper = CredentialHelper::new("https://example.com/foo/bar");
    helper.config(&cfg);
    assert_eq!(helper.username, Some("exact".to_string()));
}

#[test]
fn username_resolution_falls_through_to_pattern_key() {
    let mut cfg = Config::new();
    cfg.set_str("credential.https://example.com.username", "pattern");
    cfg.set_str("credential.username", "global");
    let mut helper = CredentialHelper::new("https://example.com/foo/bar");
    helper.config(&cfg);
    assert_eq!(helper.username, Some("pattern".to_string()));
}

#[test]
fn username_resolution_falls_through_to_global_key() {
    let mut cfg = Config::new();
    cfg.set_str("credential.username", "global");
    let mut helper = CredentialHelper::new("https://example.com/foo/bar");
    helper.config(&cfg);
    assert_eq!(helper.username, Some("global".to_string()));
}

#[test]
fn helpers_collect_every_match_in_order() {
    let mut cfg = Config::new();
    cfg.set_str("credential.https://example.com/foo/bar.helper", "/x");
    cfg.set_str("credential.https://example.com.helper", "!y");
    cfg.set_str("credential.helper", "z");
    let mut helper = CredentialHelper::new("https://example.com/foo/bar");
    helper.config(&cfg);
    assert_eq!(
        helper.commands().as_slice(),
        ["\"/x\"", "y", "git credential-z"]
    );
}

#[test]
fn stdin_input_lists_known_fields_in_order() {
    let helper = CredentialHelper::new("https://example.com/foo/bar");
    let input = helper.stdin_input(&Some("bob".to_string()));
    assert_eq!(input, "protocol=https\nhost=example.com\nusername=bob\n");
}

#[test]
fn stdin_input_omits_unknown_fields() {
    let helper = CredentialHelper::new("https://example.com/foo/bar");
    assert_eq!(helper.stdin_input(&None), "protocol=https\nhost=example.com\n");
    let blind = CredentialHelper::new("not a url at all");
    assert_eq!(blind.stdin_input(&None), "");
    assert_eq!(blind.stdin_input(&Some("u".to_string())), "username=u\n");
}

#[test]
fn config_store_last_set_wins() {
    let mut cfg = Config::new();
    assert_eq!(cfg.get_str("credential.helper"), None);
    cfg.set_str("credential.helper", "first");
    cfg.set_str("credential.helper", "second");
    assert_eq!(cfg.get_str("credential.helper"), Some("second".to_string()));
    assert_eq!(cfg.get_str("credential.username"), None);
}

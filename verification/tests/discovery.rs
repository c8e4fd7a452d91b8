use credhelper::{Config, CredentialHelper};

fn helper_with(cfg: &Config, url: &str) -> CredentialHelper {
    let mut helper = CredentialHelper::new(url);
    helper.config(cfg);
    helper
}

#[test]
fn credential_helper2() {
    let cfg = Config::new();
    let helper = helper_with(&cfg, "https://example.com/foo/bar");
    assert!(helper.commands().is_empty());
    assert!(helper.execute(&vec![]).is_none());
}

#[test]
fn credential_helper1() {
    let mut cfg = Config::new();
    cfg.set_str("credential.helper", "!f() { echo username=a; echo password=b; }; f");
    let helper = helper_with(&cfg, "https://example.com/foo/bar");
    assert_eq!(helper.commands().len(), 1);
    let replies = vec![helper.parse_output(b"username=a\npassword=b\n".to_vec())];
    let (u, p) = helper.execute(&replies).unwrap();
    assert_eq!(u, "a");
    assert_eq!(p, "b");
}

#[test]
fn credential_helper3() {
    let mut cfg = Config::new();
    cfg.set_str("credential.https://example.com.helper", "!f() { echo username=c; }; f");
    cfg.set_str("credential.helper", "!f() { echo username=a; echo password=b; }; f");
    let helper = helper_with(&cfg, "https://example.com/foo/bar");
    assert_eq!(helper.commands().len(), 2);
    let replies = vec![
        helper.parse_output(b"username=c\n".to_vec()),
        helper.parse_output(b"username=a\npassword=b\n".to_vec()),
    ];
    let (u, p) = helper.execute(&replies).unwrap();
    assert_eq!(u, "c");
    assert_eq!(p, "b");
}

#[test]
fn unparsable_url_still_discovers_through_global_helper() {
    let mut cfg = Config::new();
    cfg.set_str("credential.helper", "!f() { echo username=a; echo password=b; }; f");
    let helper = helper_with(&cfg, "not a url at all");
    assert_eq!(helper.commands().len(), 1);
    let replies = vec![helper.parse_output(b"username=a\npassword=b\n".to_vec())];
    assert_eq!(helper.execute(&replies), Some(("a".to_string(), "b".to_string())));
}

#[test]
fn discovery_is_repeatable() {
    let mut cfg = Config::new();
    cfg.set_str("credential.helper", "!f() { echo username=a; echo password=b; }; f");
    let helper = helper_with(&cfg, "https://example.com/foo/bar");
    let replies = vec![helper.parse_output(b"username=a\npassword=b\n".to_vec())];
    let first = helper.execute(&replies);
    let second = helper.execute(&replies);
    assert_eq!(first, second);
    assert_eq!(first, Some(("a".to_string(), "b".to_string())));
}

#[test]
fn failed_helper_does_not_block_a_later_one() {
    let mut cfg = Config::new();
    cfg.set_str("credential.https://example.com.helper", "/nonexistent/helper");
    cfg.set_str("credential.helper", "!f() { echo username=a; echo password=b; }; f");
    let helper = helper_with(&cfg, "https://example.com/foo/bar");
    assert_eq!(helper.commands().len(), 2);
    // the first helper could not run: it contributes no answer at all
    let replies = vec![
        (None, None),
        helper.parse_output(b"username=a\npassword=b\n".to_vec()),
    ];
    assert_eq!(helper.execute(&replies), Some(("a".to_string(), "b".to_string())));
}

#[test]
fn seeded_username_only_needs_a_password() {
    let mut cfg = Config::new();
    cfg.set_str("credential.helper", "!f() { echo password=p; }; f");
    let mut helper = CredentialHelper::new("https://example.com/foo/bar");
    helper.username(Some("seeded"));
    helper.config(&cfg);
    let replies = vec![helper.parse_output(b"password=p\n".to_vec())];
    assert_eq!(helper.execute(&replies), Some(("seeded".to_string(), "p".to_string())));
}

#[test]
fn seeded_username_is_never_overwritten() {
    let mut cfg = Config::new();
    cfg.set_str("credential.helper", "!f() { echo username=x; echo password=p; }; f");
    let mut helper = CredentialHelper::new("https://example.com/foo/bar");
    helper.username(Some("seeded"));
    helper.config(&cfg);
    let replies = vec![helper.parse_output(b"username=x\npassword=p\n".to_vec())];
    assert_eq!(helper.execute(&replies), Some(("seeded".to_string(), "p".to_string())));
}

#[test]
fn complete_answer_short_circuits_later_helpers() {
    let mut cfg = Config::new();
    cfg.set_str("credential.https://example.com.helper", "!f() { echo username=a; echo password=b; }; f");
    cfg.set_str("credential.helper", "!f() { echo username=c; echo password=d; }; f");
    let helper = helper_with(&cfg, "https://example.com/foo/bar");
    let replies = vec![
        helper.parse_output(b"username=a\npassword=b\n".to_vec()),
        helper.parse_output(b"username=c\npassword=d\n".to_vec()),
    ];
    assert_eq!(helper.execute(&replies), Some(("a".to_string(), "b".to_string())));
}

#[test]
fn stepwise_fold_matches_execute() {
    let mut cfg = Config::new();
    cfg.set_str("credential.https://example.com.helper", "!f() { echo username=c; }; f");
    cfg.set_str("credential.helper", "!f() { echo username=a; echo password=b; }; f");
    let helper = helper_with(&cfg, "https://example.com/foo/bar");
    let replies = vec![
        helper.parse_output(b"username=c\n".to_vec()),
        helper.parse_output(b"username=a\npassword=b\n".to_vec()),
    ];
    let mut state = helper.begin();
    let mut i = 0;
    while i < replies.len() && !state.complete() {
        let (u, p) = replies[i].clone();
        state.absorb(u, p);
        i += 1;
    }
    assert_eq!(state.finish(), helper.execute(&replies));
}

#[test]
fn username_without_password_is_not_found() {
    let mut cfg = Config::new();
    cfg.set_str("credential.helper", "!f() { echo username=a; }; f");
    let helper = helper_with(&cfg, "https://example.com/foo/bar");
    let replies = vec![helper.parse_output(b"username=a\n".to_vec())];
    assert!(helper.execute(&replies).is_none());
}

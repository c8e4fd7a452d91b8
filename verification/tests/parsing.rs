use credhelper::CredentialHelper;

fn parsed(bytes: &[u8]) -> (Option<String>, Option<String>) {
    let helper = CredentialHelper::new("https://example.com/foo/bar");
    helper.parse_output(bytes.to_vec())
}

#[test]
fn both_fields_on_two_lines() {
    let (u, p) = parsed(b"username=a\npassword=b\n");
    assert_eq!(u, Some("a".to_string()));
    assert_eq!(p, Some("b".to_string()));
}

#[test]
fn final_newline_is_optional() {
    let (u, p) = parsed(b"username=a\npassword=b");
    assert_eq!(u, Some("a".to_string()));
    assert_eq!(p, Some("b".to_string()));
}

#[test]
fn line_without_separator_is_skipped() {
    let (u, p) = parsed(b"junk\nusername=a\n");
    assert_eq!(u, Some("a".to_string()));
    assert_eq!(p, None);
}

#[test]
fn unknown_keys_are_ignored() {
    let (u, p) = parsed(b"quit=1\nusername=a\nurl=https://example.com\n");
    assert_eq!(u, Some("a".to_string()));
    assert_eq!(p, None);
}

#[test]
fn value_keeps_later_separators() {
    let (u, p) = parsed(b"password=a=b\n");
    assert_eq!(u, None);
    assert_eq!(p, Some("a=b".to_string()));
}

#[test]
fn undecodable_value_drops_only_its_line() {
    let mut bytes: Vec<u8> = b"username=".to_vec();
    bytes.push(0xff);
    bytes.extend_from_slice(b"\nusername=ok\n");
    let helper = CredentialHelper::new("https://example.com/foo/bar");
    let (u, p) = helper.parse_output(bytes);
    assert_eq!(u, Some("ok".to_string()));
    assert_eq!(p, None);
}

#[test]
fn first_occurrence_of_a_key_wins() {
    let (u, _) = parsed(b"username=a\nusername=z\n");
    assert_eq!(u, Some("a".to_string()));
}

#[test]
fn empty_output_offers_nothing() {
    let (u, p) = parsed(b"");
    assert_eq!(u, None);
    assert_eq!(p, None);
}

#[test]
fn empty_value_is_an_answer() {
    let (u, _) = parsed(b"username=\n");
    assert_eq!(u, Some("".to_string()));
}

#[test]
fn key_must_match_exactly() {
    let (u, p) = parsed(b"usernamex=a\npassword2=b\nusernam=c\n");
    assert_eq!(u, None);
    assert_eq!(p, None);
}

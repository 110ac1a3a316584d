use hermod::server::node::{collapse_dashes, dash_non_alphanumerics, slugify};

#[test]
fn test_slugify_unix_path() {
    assert_eq!(slugify("/tmp/forwarder.sock"), "tmp-forwarder-sock");
}

#[test]
fn test_slugify_tcp() {
    assert_eq!(slugify("192.168.1.1:3000"), "192-168-1-1-3000");
}

#[test]
fn test_slugify_already_clean() {
    assert_eq!(slugify("mynode"), "mynode");
}

#[test]
fn test_slugify_empty_becomes_x() {
    assert_eq!(slugify("!!!"), "x");
}

#[test]
fn slugify_lowercases_and_collapses() {
    assert_eq!(slugify("  My  Node--42 "), "my-node-42");
}

#[test]
fn slugify_empty_input_is_x() {
    assert_eq!(slugify(""), "x");
}

#[test]
fn slugify_keeps_unicode_letters() {
    assert_eq!(slugify("Über Node"), "über-node");
}

#[test]
fn collapse_dashes_trims_and_squeezes() {
    assert_eq!(collapse_dashes("--a---b--"), "a-b");
    assert_eq!(collapse_dashes("-"), "x");
    assert_eq!(collapse_dashes("abc"), "abc");
}

#[test]
fn collapse_dashes_is_idempotent_on_examples() {
    for raw in ["", "-a-", "a--b", "x", "--", "a-b-c-"] {
        let once = collapse_dashes(raw);
        assert_eq!(collapse_dashes(&once), once);
    }
}

#[test]
fn dash_non_alphanumerics_replaces_each_char() {
    assert_eq!(dash_non_alphanumerics("a.b:c_1"), "a-b-c-1");
    assert_eq!(dash_non_alphanumerics(""), "");
}

#[test]
fn slug_has_no_dash_runs() {
    let s = slugify("a!!b??c");
    assert_eq!(s, "a-b-c");
    assert!(!s.contains("--"));
}

#[test]
fn slugify_is_stable_on_slugs() {
    for name in ["/tmp/forwarder.sock", "192.168.1.1:3000", "mynode", "!!!", "A  B", "relay-1"] {
        let once = slugify(name);
        assert_eq!(slugify(&once), once);
    }
}

#[test]
fn slugify_ignores_ascii_case() {
    for name in ["My Node", "relay-01.EXAMPLE:3001", "!!!", "abc"] {
        assert_eq!(slugify(&name.to_ascii_uppercase()), slugify(name));
        assert_eq!(slugify(&name.to_ascii_lowercase()), slugify(name));
    }
}

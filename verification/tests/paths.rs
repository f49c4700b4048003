use secret_guard::paths::{parent, resolve_under, split_last};

fn resolve_bytes(base: &[u8], suffix: &[&[u8]]) -> Vec<u8> {
    let comps: Vec<Vec<u8>> = suffix.iter().map(|c| c.to_vec()).collect();
    resolve_under(&base.to_vec(), &comps)
}

#[test]
fn split_at_last_separator() {
    let r = split_last(&b"/a/b".to_vec()).unwrap();
    assert_eq!(r.0, b"/a".to_vec());
    assert_eq!(r.1, b"b".to_vec());
}

#[test]
fn split_directly_under_root() {
    let r = split_last(&b"/a".to_vec()).unwrap();
    assert_eq!(r.0, b"/".to_vec());
    assert_eq!(r.1, b"a".to_vec());
}

#[test]
fn split_relative_path() {
    let r = split_last(&b"a/b/c".to_vec()).unwrap();
    assert_eq!(r.0, b"a/b".to_vec());
    assert_eq!(r.1, b"c".to_vec());
}

#[test]
fn split_bare_name_has_no_separator() {
    assert!(split_last(&b"fresh.txt".to_vec()).is_none());
    assert!(split_last(&b"".to_vec()).is_none());
}

#[test]
fn split_trailing_separator_gives_empty_name() {
    let r = split_last(&b"/a/".to_vec()).unwrap();
    assert_eq!(r.0, b"/a".to_vec());
    assert_eq!(r.1, b"".to_vec());
}

#[test]
fn parent_of_nested_path() {
    assert_eq!(parent(&b"/a/b".to_vec()), b"/a".to_vec());
}

#[test]
fn root_is_its_own_parent() {
    assert_eq!(parent(&b"/".to_vec()), b"/".to_vec());
}

#[test]
fn resolve_plain_components_descend() {
    assert_eq!(resolve_bytes(b"/tmp", &[b"a", b"b"]), b"/tmp/a/b".to_vec());
}

#[test]
fn resolve_under_root_has_single_separator() {
    assert_eq!(resolve_bytes(b"/", &[b"x"]), b"/x".to_vec());
}

#[test]
fn resolve_dotdot_pops_a_component() {
    assert_eq!(resolve_bytes(b"/tmp", &[b"a", b"..", b"b"]), b"/tmp/b".to_vec());
}

#[test]
fn resolve_dotdot_at_root_stays_at_root() {
    assert_eq!(resolve_bytes(b"/", &[b"..", b"x"]), b"/x".to_vec());
}

#[test]
fn resolve_skips_dot_and_empty_components() {
    assert_eq!(resolve_bytes(b"/tmp", &[b".", b"", b"a"]), b"/tmp/a".to_vec());
}

#[test]
fn resolve_with_no_components_is_the_base() {
    assert_eq!(resolve_bytes(b"/tmp", &[]), b"/tmp".to_vec());
}

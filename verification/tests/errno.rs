use secret_guard::errno::{deny_errno, PERMISSION_DENIED};

#[test]
fn denial_reports_permission_denied() {
    assert_eq!(deny_errno(), PERMISSION_DENIED);
    assert_eq!(deny_errno(), 13);
}

#[test]
fn denial_code_is_the_platform_eacces() {
    assert_eq!(deny_errno(), libc::EACCES);
}

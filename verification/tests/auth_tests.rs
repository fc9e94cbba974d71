use ltlive::auth::can_invoke_command;

#[test]
fn either_designated_role_grants_access() {
    assert!(can_invoke_command(Some(true), Some(false)));
    assert!(can_invoke_command(Some(true), None));
    assert!(can_invoke_command(Some(false), Some(true)));
    assert!(can_invoke_command(Some(true), Some(true)));
}

#[test]
fn no_role_or_failed_checks_deny_access() {
    assert!(!can_invoke_command(Some(false), Some(false)));
    assert!(!can_invoke_command(None, Some(true)));
    assert!(!can_invoke_command(None, None));
    assert!(!can_invoke_command(Some(false), None));
}

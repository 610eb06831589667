use linux_guardian::checks::{check_ssh_password_auth, check_ssh_root_login, ConfigAccess, RiskLevel};

fn readable(lines: &[&str]) -> ConfigAccess {
    ConfigAccess::Readable(lines.iter().map(|l| String::from(*l)).collect())
}

#[test]
fn root_login_missing_config_is_high_risk() {
    let r = check_ssh_root_login(&ConfigAccess::Missing);
    assert_eq!(r.name, "SSH Root Login");
    assert_eq!(r.risk, RiskLevel::High);
    assert_eq!(r.message, "SSH config not found");
    assert!(r.score_impact > 0);
    assert_eq!(r.score_impact, 20);
}

#[test]
fn root_login_unreadable_config_is_high_risk() {
    let r = check_ssh_root_login(&ConfigAccess::Unreadable);
    assert_eq!(r.risk, RiskLevel::High);
    assert_eq!(r.message, "Cannot read SSH config (run as sudo)");
    assert_eq!(r.score_impact, 20);
}

#[test]
fn root_login_yes_is_high_risk() {
    let r = check_ssh_root_login(&readable(&["PermitRootLogin yes"]));
    assert_eq!(r.risk, RiskLevel::High);
    assert_eq!(r.message, "Root login enabled");
    assert_eq!(r.score_impact, 25);
}

#[test]
fn root_login_no_is_low_risk() {
    let r = check_ssh_root_login(&readable(&["PermitRootLogin no"]));
    assert_eq!(r.risk, RiskLevel::Low);
    assert_eq!(r.message, "Root login disabled");
    assert_eq!(r.score_impact, 0);
}

#[test]
fn root_login_prohibit_password_is_medium_risk() {
    let r = check_ssh_root_login(&readable(&["PermitRootLogin prohibit-password"]));
    assert_eq!(r.risk, RiskLevel::Medium);
    assert_eq!(r.message, "Root login allowed via key");
    assert_eq!(r.score_impact, 10);
}

#[test]
fn root_login_comment_lines_are_ignored() {
    let r = check_ssh_root_login(&readable(&[
        "# PermitRootLogin yes",
        "   #PermitRootLogin yes",
        "PermitRootLogin no",
    ]));
    assert_eq!(r.risk, RiskLevel::Low);
    assert_eq!(r.score_impact, 0);
}

#[test]
fn root_login_first_match_wins() {
    let r = check_ssh_root_login(&readable(&["PermitRootLogin no", "PermitRootLogin yes"]));
    assert_eq!(r.risk, RiskLevel::Low);
    assert_eq!(r.message, "Root login disabled");
}

#[test]
fn root_login_unrecognized_value_is_not_low_risk() {
    let r = check_ssh_root_login(&readable(&["PermitRootLogin maybe"]));
    assert_eq!(r.risk, RiskLevel::Medium);
    assert_eq!(r.message, "Setting not explicitly defined");
    assert_eq!(r.score_impact, 10);
}

#[test]
fn root_login_unrecognized_value_falls_through_to_later_line() {
    let r = check_ssh_root_login(&readable(&["PermitRootLogin maybe", "PermitRootLogin yes"]));
    assert_eq!(r.risk, RiskLevel::High);
    assert_eq!(r.score_impact, 25);
}

#[test]
fn root_login_unset_is_medium_risk() {
    let r = check_ssh_root_login(&readable(&["Port 22", "", "  ", "X11Forwarding no"]));
    assert_eq!(r.risk, RiskLevel::Medium);
    assert_eq!(r.message, "Setting not explicitly defined");
    assert_eq!(r.score_impact, 10);
}

#[test]
fn root_login_directive_without_value_is_unset() {
    let r = check_ssh_root_login(&readable(&["PermitRootLogin"]));
    assert_eq!(r.risk, RiskLevel::Medium);
    assert_eq!(r.score_impact, 10);
}

#[test]
fn root_login_surrounding_whitespace_is_trimmed() {
    let r = check_ssh_root_login(&readable(&["\t  PermitRootLogin yes   "]));
    assert_eq!(r.risk, RiskLevel::High);
    assert_eq!(r.score_impact, 25);
}

#[test]
fn root_login_unicode_whitespace_separates_tokens() {
    // em space before the key, vertical tab as separator, no-break space
    // trailing: all Unicode whitespace, all trimmed or splitting.
    let r = check_ssh_root_login(&readable(&["\u{2003}PermitRootLogin\u{000B}yes\u{00A0}"]));
    assert_eq!(r.risk, RiskLevel::High);
    assert_eq!(r.score_impact, 25);
}

#[test]
fn root_login_directive_matches_by_prefix() {
    let r = check_ssh_root_login(&readable(&["PermitRootLoginExtra yes"]));
    assert_eq!(r.risk, RiskLevel::High);
    assert_eq!(r.score_impact, 25);
}

#[test]
fn password_auth_missing_config_is_high_risk() {
    let r = check_ssh_password_auth(&ConfigAccess::Missing);
    assert_eq!(r.name, "SSH Password Authentication");
    assert_eq!(r.risk, RiskLevel::High);
    assert_eq!(r.message, "SSH config not found");
    assert!(r.score_impact > 0);
    assert_eq!(r.score_impact, 15);
}

#[test]
fn password_auth_unreadable_config_is_high_risk() {
    let r = check_ssh_password_auth(&ConfigAccess::Unreadable);
    assert_eq!(r.risk, RiskLevel::High);
    assert_eq!(r.message, "Cannot read SSH config (run as sudo)");
    assert_eq!(r.score_impact, 15);
}

#[test]
fn password_auth_yes_is_medium_risk() {
    let r = check_ssh_password_auth(&readable(&["PasswordAuthentication yes"]));
    assert_eq!(r.risk, RiskLevel::Medium);
    assert_eq!(r.message, "Password authentication enabled");
    assert_eq!(r.score_impact, 10);
}

#[test]
fn password_auth_no_is_low_risk() {
    let r = check_ssh_password_auth(&readable(&["PasswordAuthentication no"]));
    assert_eq!(r.risk, RiskLevel::Low);
    assert_eq!(r.message, "Password authentication disabled (key-only)");
    assert_eq!(r.score_impact, 0);
}

#[test]
fn password_auth_unset_has_smaller_penalty_than_insecure() {
    let r = check_ssh_password_auth(&readable(&["Port 22"]));
    assert_eq!(r.risk, RiskLevel::Medium);
    assert_eq!(r.message, "Setting not explicitly defined");
    assert_eq!(r.score_impact, 5);
}

#[test]
fn password_auth_unrecognized_value_is_not_low_risk() {
    let r = check_ssh_password_auth(&readable(&["PasswordAuthentication sometimes"]));
    assert_eq!(r.risk, RiskLevel::Medium);
    assert_eq!(r.score_impact, 5);
}

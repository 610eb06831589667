use linux_guardian::checks::{check_firewall_status, ufw_definitive, RiskLevel};

#[test]
fn ufw_active_is_low_risk() {
    let ufw = Some(String::from("Status: active\n\nTo  Action  From\n"));
    let r = check_firewall_status(&ufw, &None);
    assert_eq!(r.name, "Firewall Status");
    assert_eq!(r.risk, RiskLevel::Low);
    assert_eq!(r.message, "UFW firewall active");
    assert_eq!(r.score_impact, 0);
}

#[test]
fn ufw_inactive_is_high_risk() {
    let ufw = Some(String::from("Status: inactive\n"));
    let r = check_firewall_status(&ufw, &None);
    assert_eq!(r.risk, RiskLevel::High);
    assert_eq!(r.message, "UFW installed but inactive");
    assert_eq!(r.score_impact, 20);
}

#[test]
fn ufw_wins_over_firewalld_when_definitive() {
    let ufw = Some(String::from("Status: inactive\n"));
    let fwd = Some(String::from("active\n"));
    let r = check_firewall_status(&ufw, &fwd);
    assert_eq!(r.risk, RiskLevel::High);
    assert_eq!(r.message, "UFW installed but inactive");
}

#[test]
fn inconclusive_ufw_falls_through_to_firewalld() {
    let ufw = Some(String::from("ufw: command not found\n"));
    let fwd = Some(String::from("active\n"));
    let r = check_firewall_status(&ufw, &fwd);
    assert_eq!(r.risk, RiskLevel::Low);
    assert_eq!(r.message, "firewalld active");
    assert_eq!(r.score_impact, 0);
}

#[test]
fn firewalld_active_is_low_risk() {
    let fwd = Some(String::from("active\n"));
    let r = check_firewall_status(&None, &fwd);
    assert_eq!(r.risk, RiskLevel::Low);
    assert_eq!(r.message, "firewalld active");
    assert_eq!(r.score_impact, 0);
}

#[test]
fn firewalld_inactive_is_high_risk() {
    // A definitive inactive answer must never be read as an active
    // firewall, even though "inactive" contains "active" as a substring.
    let fwd = Some(String::from("inactive\n"));
    let r = check_firewall_status(&None, &fwd);
    assert_eq!(r.risk, RiskLevel::High);
    assert_eq!(r.message, "No active firewall detected");
    assert_eq!(r.score_impact, 25);
}

#[test]
fn no_candidate_answers_is_high_risk() {
    let r = check_firewall_status(&None, &None);
    assert_eq!(r.risk, RiskLevel::High);
    assert_eq!(r.message, "No active firewall detected");
    assert_eq!(r.score_impact, 25);
}

#[test]
fn unhelpful_firewalld_output_is_high_risk() {
    let fwd = Some(String::from("unknown\n"));
    let r = check_firewall_status(&None, &fwd);
    assert_eq!(r.risk, RiskLevel::High);
    assert_eq!(r.message, "No active firewall detected");
    assert_eq!(r.score_impact, 25);
}

#[test]
fn ufw_definitive_recognizes_both_statuses() {
    assert!(ufw_definitive(&String::from("Status: active\n")));
    assert!(ufw_definitive(&String::from("Status: inactive\n")));
    assert!(!ufw_definitive(&String::from("ufw: command not found\n")));
    assert!(!ufw_definitive(&String::from("")));
}

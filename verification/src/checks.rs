//! Host security checks: the risk taxonomy, the result record every check
//! produces, and the classification logic of the concrete checks (SSH
//! daemon policy, firewall status). The checks only classify what was
//! observed; reading files and querying services is the driver's job.

use vstd::prelude::*;
use vstd::string::StringExecFns;
use crate::parse::contains_seq;
use crate::parse::first_recognized_value;
use crate::parse::lemma_no_recognized_value;
use crate::parse::line_recognized;
use crate::parse::scan_directive;
use crate::parse::str_contains;

verus! {

/// Severity classification of one finding.
#[derive(Clone, Copy, Debug, PartialEq, Eq, Structural)]
pub enum RiskLevel {
    Low,
    Medium,
    High,
}

/// The outcome of one host inspection: a display name, a risk
/// classification, a human-readable message, and a non-negative penalty
/// that the aggregator subtracts from the baseline score.
#[derive(Debug)]
pub struct CheckResult {
    pub name: String,
    pub risk: RiskLevel,
    pub message: String,
    pub score_impact: i32,
}

/// How the configuration file a check inspects could be accessed. An absent
/// or unreadable file is a finding, not an error: the check still returns a
/// result.
pub enum ConfigAccess {
    /// The file does not exist.
    Missing,
    /// The file exists but could not be read.
    Unreadable,
    /// The file was read as a sequence of lines.
    Readable(Vec<String>),
}

/// Directive that controls root login over SSH.
pub open spec fn root_login_key() -> Seq<char> {
    "PermitRootLogin"@
}

/// Values of the root-login directive that the check recognizes.
pub open spec fn root_login_vals() -> Seq<Seq<char>> {
    seq!["yes"@, "no"@, "prohibit-password"@]
}

/// Risk that a readable SSH configuration earns for root login.
pub open spec fn root_login_risk(lines: Seq<Seq<char>>) -> RiskLevel {
    match first_recognized_value(lines, root_login_key(), root_login_vals()) {
        Some(v) => if v == "yes"@ {
            RiskLevel::High
        } else if v == "no"@ {
            RiskLevel::Low
        } else {
            RiskLevel::Medium
        },
        None => RiskLevel::Medium,
    }
}

/// Penalty that a readable SSH configuration earns for root login.
pub open spec fn root_login_impact(lines: Seq<Seq<char>>) -> int {
    match first_recognized_value(lines, root_login_key(), root_login_vals()) {
        Some(v) => if v == "yes"@ {
            25
        } else if v == "no"@ {
            0
        } else {
            10
        },
        None => 10,
    }
}

/// Message that a readable SSH configuration earns for root login.
pub open spec fn root_login_message(lines: Seq<Seq<char>>) -> Seq<char> {
    match first_recognized_value(lines, root_login_key(), root_login_vals()) {
        Some(v) => if v == "yes"@ {
            "Root login enabled"@
        } else if v == "no"@ {
            "Root login disabled"@
        } else {
            "Root login allowed via key"@
        },
        None => "Setting not explicitly defined"@,
    }
}

/// Whether the SSH daemon permits root login, judged from the configuration
/// file as the driver could access it. A missing or unreadable file is a
/// high-risk finding; an unset directive is a medium-risk finding.
pub fn check_ssh_root_login(config: &ConfigAccess) -> (r: CheckResult)
    ensures
        r.name@ == "SSH Root Login"@,
        config matches ConfigAccess::Missing ==> r.risk == RiskLevel::High && r.score_impact == 20
            && r.message@ == "SSH config not found"@,
        config matches ConfigAccess::Unreadable ==> r.risk == RiskLevel::High && r.score_impact
            == 20 && r.message@ == "Cannot read SSH config (run as sudo)"@,
        config matches ConfigAccess::Readable(lines) ==> {
            &&& r.risk == root_login_risk(lines.deep_view())
            &&& r.score_impact as int == root_login_impact(lines.deep_view())
            &&& r.message@ == root_login_message(lines.deep_view())
        },
{
    match config {
        ConfigAccess::Missing => CheckResult {
            name: String::from_str("SSH Root Login"),
            risk: RiskLevel::High,
            message: String::from_str("SSH config not found"),
            score_impact: 20,
        },
        ConfigAccess::Unreadable => CheckResult {
            name: String::from_str("SSH Root Login"),
            risk: RiskLevel::High,
            message: String::from_str("Cannot read SSH config (run as sudo)"),
            score_impact: 20,
        },
        ConfigAccess::Readable(lines) => {
            let mut vals: Vec<&str> = Vec::new();
            vals.push("yes");
            vals.push("no");
            vals.push("prohibit-password");
            proof {
                assert(vals.deep_view()[0] == "yes"@);
                assert(vals.deep_view()[1] == "no"@);
                assert(vals.deep_view()[2] == "prohibit-password"@);
                assert(vals.deep_view() =~= root_login_vals());
                reveal_strlit("yes");
                reveal_strlit("no");
                reveal_strlit("prohibit-password");
                assert("yes"@.len() == 3);
                assert("no"@.len() == 2);
                assert("prohibit-password"@.len() == 17);
            }
            match scan_directive(lines, "PermitRootLogin", &vals) {
                Some(i) => {
                    if i == 0 {
                        CheckResult {
                            name: String::from_str("SSH Root Login"),
                            risk: RiskLevel::High,
                            message: String::from_str("Root login enabled"),
                            score_impact: 25,
                        }
                    } else if i == 1 {
                        CheckResult {
                            name: String::from_str("SSH Root Login"),
                            risk: RiskLevel::Low,
                            message: String::from_str("Root login disabled"),
                            score_impact: 0,
                        }
                    } else {
                        CheckResult {
                            name: String::from_str("SSH Root Login"),
                            risk: RiskLevel::Medium,
                            message: String::from_str("Root login allowed via key"),
                            score_impact: 10,
                        }
                    }
                },
                None => CheckResult {
                    name: String::from_str("SSH Root Login"),
                    risk: RiskLevel::Medium,
                    message: String::from_str("Setting not explicitly defined"),
                    score_impact: 10,
                },
            }
        },
    }
}

/// A root-login directive set only to unrecognized values is never read as
/// secure: when no line assigns a recognized value, the check reports the
/// medium-risk "not explicitly defined" finding, never a Low risk.
pub proof fn lemma_root_login_unrecognized_not_low(lines: Seq<Seq<char>>)
    requires
        forall|j: int|
            0 <= j < lines.len() ==> !line_recognized(
                #[trigger] lines[j],
                root_login_key(),
                root_login_vals(),
            ),
    ensures
        root_login_risk(lines) == RiskLevel::Medium,
        root_login_risk(lines) != RiskLevel::Low,
{
    lemma_no_recognized_value(lines, root_login_key(), root_login_vals());
}

/// Directive that controls password authentication over SSH.
pub open spec fn password_auth_key() -> Seq<char> {
    "PasswordAuthentication"@
}

/// Values of the password-authentication directive that the check
/// recognizes.
pub open spec fn password_auth_vals() -> Seq<Seq<char>> {
    seq!["yes"@, "no"@]
}

/// Risk that a readable SSH configuration earns for password
/// authentication.
pub open spec fn password_auth_risk(lines: Seq<Seq<char>>) -> RiskLevel {
    match first_recognized_value(lines, password_auth_key(), password_auth_vals()) {
        Some(v) => if v == "yes"@ {
            RiskLevel::Medium
        } else {
            RiskLevel::Low
        },
        None => RiskLevel::Medium,
    }
}

/// Penalty that a readable SSH configuration earns for password
/// authentication.
pub open spec fn password_auth_impact(lines: Seq<Seq<char>>) -> int {
    match first_recognized_value(lines, password_auth_key(), password_auth_vals()) {
        Some(v) => if v == "yes"@ {
            10
        } else {
            0
        },
        None => 5,
    }
}

/// Message that a readable SSH configuration earns for password
/// authentication.
pub open spec fn password_auth_message(lines: Seq<Seq<char>>) -> Seq<char> {
    match first_recognized_value(lines, password_auth_key(), password_auth_vals()) {
        Some(v) => if v == "yes"@ {
            "Password authentication enabled"@
        } else {
            "Password authentication disabled (key-only)"@
        },
        None => "Setting not explicitly defined"@,
    }
}

/// Whether the SSH daemon accepts password authentication, judged from the
/// configuration file as the driver could access it.
pub fn check_ssh_password_auth(config: &ConfigAccess) -> (r: CheckResult)
    ensures
        r.name@ == "SSH Password Authentication"@,
        config matches ConfigAccess::Missing ==> r.risk == RiskLevel::High && r.score_impact == 15
            && r.message@ == "SSH config not found"@,
        config matches ConfigAccess::Unreadable ==> r.risk == RiskLevel::High && r.score_impact
            == 15 && r.message@ == "Cannot read SSH config (run as sudo)"@,
        config matches ConfigAccess::Readable(lines) ==> {
            &&& r.risk == password_auth_risk(lines.deep_view())
            &&& r.score_impact as int == password_auth_impact(lines.deep_view())
            &&& r.message@ == password_auth_message(lines.deep_view())
        },
{
    match config {
        ConfigAccess::Missing => CheckResult {
            name: String::from_str("SSH Password Authentication"),
            risk: RiskLevel::High,
            message: String::from_str("SSH config not found"),
            score_impact: 15,
        },
        ConfigAccess::Unreadable => CheckResult {
            name: String::from_str("SSH Password Authentication"),
            risk: RiskLevel::High,
            message: String::from_str("Cannot read SSH config (run as sudo)"),
            score_impact: 15,
        },
        ConfigAccess::Readable(lines) => {
            let mut vals: Vec<&str> = Vec::new();
            vals.push("yes");
            vals.push("no");
            proof {
                assert(vals.deep_view()[0] == "yes"@);
                assert(vals.deep_view()[1] == "no"@);
                assert(vals.deep_view() =~= password_auth_vals());
                reveal_strlit("yes");
                reveal_strlit("no");
                assert("yes"@.len() == 3);
                assert("no"@.len() == 2);
            }
            match scan_directive(lines, "PasswordAuthentication", &vals) {
                Some(i) => {
                    if i == 0 {
                        CheckResult {
                            name: String::from_str("SSH Password Authentication"),
                            risk: RiskLevel::Medium,
                            message: String::from_str("Password authentication enabled"),
                            score_impact: 10,
                        }
                    } else {
                        CheckResult {
                            name: String::from_str("SSH Password Authentication"),
                            risk: RiskLevel::Low,
                            message: String::from_str(
                                "Password authentication disabled (key-only)",
                            ),
                            score_impact: 0,
                        }
                    }
                },
                None => CheckResult {
                    name: String::from_str("SSH Password Authentication"),
                    risk: RiskLevel::Medium,
                    message: String::from_str("Setting not explicitly defined"),
                    score_impact: 5,
                },
            }
        },
    }
}

/// A password-authentication directive set only to unrecognized values is
/// never read as secure: the check reports the medium-risk "not explicitly
/// defined" finding, never a Low risk.
pub proof fn lemma_password_auth_unrecognized_not_low(lines: Seq<Seq<char>>)
    requires
        forall|j: int|
            0 <= j < lines.len() ==> !line_recognized(
                #[trigger] lines[j],
                password_auth_key(),
                password_auth_vals(),
            ),
    ensures
        password_auth_risk(lines) == RiskLevel::Medium,
        password_auth_risk(lines) != RiskLevel::Low,
{
    lemma_no_recognized_value(lines, password_auth_key(), password_auth_vals());
}

/// Risk earned from the second firewall candidate: the service-manager
/// query for firewalld. Used when the first candidate was inconclusive.
/// A definitive inactive answer is never read as an active firewall, so
/// "inactive" is recognized before "active" is looked for.
pub open spec fn firewalld_risk(fwd: Option<Seq<char>>) -> RiskLevel {
    match fwd {
        Some(out) => if contains_seq(out, "inactive"@) {
            RiskLevel::High
        } else if contains_seq(out, "active"@) {
            RiskLevel::Low
        } else {
            RiskLevel::High
        },
        None => RiskLevel::High,
    }
}

/// Penalty earned from the firewalld candidate.
pub open spec fn firewalld_impact(fwd: Option<Seq<char>>) -> int {
    match fwd {
        Some(out) => if contains_seq(out, "inactive"@) {
            25
        } else if contains_seq(out, "active"@) {
            0
        } else {
            25
        },
        None => 25,
    }
}

/// Message earned from the firewalld candidate.
pub open spec fn firewalld_message(fwd: Option<Seq<char>>) -> Seq<char> {
    match fwd {
        Some(out) => if contains_seq(out, "inactive"@) {
            "No active firewall detected"@
        } else if contains_seq(out, "active"@) {
            "firewalld active"@
        } else {
            "No active firewall detected"@
        },
        None => "No active firewall detected"@,
    }
}

/// Risk of the firewall check: the ufw status output is consulted first and
/// wins when definitive; otherwise the firewalld query decides; with no
/// definitive answer from either, no active firewall is assumed.
pub open spec fn firewall_risk(ufw: Option<Seq<char>>, fwd: Option<Seq<char>>) -> RiskLevel {
    match ufw {
        Some(out) => if contains_seq(out, "Status: active"@) {
            RiskLevel::Low
        } else if contains_seq(out, "Status: inactive"@) {
            RiskLevel::High
        } else {
            firewalld_risk(fwd)
        },
        None => firewalld_risk(fwd),
    }
}

/// Penalty of the firewall check.
pub open spec fn firewall_impact(ufw: Option<Seq<char>>, fwd: Option<Seq<char>>) -> int {
    match ufw {
        Some(out) => if contains_seq(out, "Status: active"@) {
            0
        } else if contains_seq(out, "Status: inactive"@) {
            20
        } else {
            firewalld_impact(fwd)
        },
        None => firewalld_impact(fwd),
    }
}

/// Message of the firewall check.
pub open spec fn firewall_message(ufw: Option<Seq<char>>, fwd: Option<Seq<char>>) -> Seq<char> {
    match ufw {
        Some(out) => if contains_seq(out, "Status: active"@) {
            "UFW firewall active"@
        } else if contains_seq(out, "Status: inactive"@) {
            "UFW installed but inactive"@
        } else {
            firewalld_message(fwd)
        },
        None => firewalld_message(fwd),
    }
}

/// Whether the ufw status output settles the firewall question by itself,
/// so that the driver need not query the next candidate.
pub fn ufw_definitive(output: &String) -> (r: bool)
    ensures
        r == (contains_seq(output@, "Status: active"@) || contains_seq(
            output@,
            "Status: inactive"@,
        )),
{
    str_contains(output.as_str(), "Status: active") || str_contains(
        output.as_str(),
        "Status: inactive",
    )
}

/// Whether an active firewall protects the host, judged from the status
/// outputs the driver collected: `ufw_output` from the ufw status query and
/// `firewalld_output` from the service-manager query, each absent when the
/// query could not be run. Candidates are consulted in that fixed order and
/// the first definitive answer wins.
pub fn check_firewall_status(ufw_output: &Option<String>, firewalld_output: &Option<String>) -> (r:
    CheckResult)
    ensures
        r.name@ == "Firewall Status"@,
        r.risk == firewall_risk(ufw_output.deep_view(), firewalld_output.deep_view()),
        r.score_impact as int == firewall_impact(
            ufw_output.deep_view(),
            firewalld_output.deep_view(),
        ),
        r.message@ == firewall_message(ufw_output.deep_view(), firewalld_output.deep_view()),
{
    match ufw_output {
        Some(out) => {
            if str_contains(out.as_str(), "Status: active") {
                return CheckResult {
                    name: String::from_str("Firewall Status"),
                    risk: RiskLevel::Low,
                    message: String::from_str("UFW firewall active"),
                    score_impact: 0,
                };
            }
            if str_contains(out.as_str(), "Status: inactive") {
                return CheckResult {
                    name: String::from_str("Firewall Status"),
                    risk: RiskLevel::High,
                    message: String::from_str("UFW installed but inactive"),
                    score_impact: 20,
                };
            }
        },
        None => {},
    }
    match firewalld_output {
        Some(out) => {
            if !str_contains(out.as_str(), "inactive") && str_contains(out.as_str(), "active") {
                return CheckResult {
                    name: String::from_str("Firewall Status"),
                    risk: RiskLevel::Low,
                    message: String::from_str("firewalld active"),
                    score_impact: 0,
                };
            }
        },
        None => {},
    }
    CheckResult {
        name: String::from_str("Firewall Status"),
        risk: RiskLevel::High,
        message: String::from_str("No active firewall detected"),
        score_impact: 25,
    }
}

} // verus!

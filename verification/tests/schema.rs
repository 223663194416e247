use deltav::calendar::Date;
use deltav::schema::deliverables::{Csci, Deliverables, Demonstration, Document, MilestoneKind};
use deltav::schema::dependencies::{Dependencies, DependencyStatus, ExternalDependency};
use deltav::schema::github::{DeliveryRepo, GitHubConfig, GitHubProject, Organisation};
use deltav::schema::project::Project;
use deltav::schema::sizing::Sizing;
use deltav::schema::team::{Leave, Team, TeamMember};
use deltav::schema::{add_stub_comments, ConfigError, ProjectConfig, STUB_HEADER};

fn ymd(y: i32, m: u32, d: u32) -> Date {
    Date::from_ymd(y, m, d).unwrap()
}

fn config_for(url: &str) -> GitHubConfig {
    GitHubConfig {
        enterprise_url: url.to_string(),
        organisations: vec![],
        projects: vec![],
        distractions: vec![],
        delivery_repos: vec![],
    }
}

fn sample_dependency() -> ExternalDependency {
    ExternalDependency {
        name: "Test ICD".to_string(),
        id: "ICD-001".to_string(),
        owner: "Other Team".to_string(),
        rc_due: ymd(2025, 8, 1),
        final_due: ymd(2025, 10, 1),
        tracking_issue: Some("my-org/my-repo#42".to_string()),
    }
}

fn doc(id: &str, due: Date) -> Document {
    Document {
        name: format!("Doc {}", id),
        id: id.to_string(),
        due_date: due,
        status_label: None,
        depends_on: vec![],
    }
}

#[test]
fn test_api_url() {
    assert_eq!(config_for("https://github.mycompany.com").api_url(), "https://github.mycompany.com/api/v3");
}

#[test]
fn test_api_url_trailing_slash() {
    assert_eq!(config_for("https://github.mycompany.com/").api_url(), "https://github.mycompany.com/api/v3");
}

#[test]
fn test_api_url_public_github() {
    let config = config_for("https://github.com");
    assert_eq!(config.api_url(), "https://api.github.com");
    assert!(config.is_public_github());
}

#[test]
fn test_api_url_public_github_trailing_slash() {
    let config = config_for("https://github.com/");
    assert_eq!(config.api_url(), "https://api.github.com");
    assert!(config.is_public_github());
}

#[test]
fn graphql_url_and_enterprise_check() {
    let config = config_for("https://ghe.example.org//");
    assert_eq!(config.graphql_url(), "https://ghe.example.org/api/graphql");
    assert!(!config.is_public_github());
    assert_eq!(config_for("https://github.com").graphql_url(), "https://api.github.com/graphql");
    assert_eq!(
        config_for("https://github.mycompany.com/").graphql_url(),
        "https://github.mycompany.com/api/graphql"
    );
}

#[test]
fn test_org_matches() {
    let org = Organisation {
        name: "my-org".to_string(),
        repo_pattern: "^project-.*".to_string(),
        is_user: false,
    };
    assert!(org.matches("my-org", "project-foo"));
    assert!(org.matches("my-org", "project-bar-baz"));
    assert!(!org.matches("my-org", "other-repo"));
    assert!(!org.matches("other-org", "project-foo"));
}

#[test]
fn test_org_matches_all() {
    let org = Organisation {
        name: "my-org".to_string(),
        repo_pattern: ".*".to_string(),
        is_user: false,
    };
    assert!(org.matches("my-org", "anything"));
    assert!(org.matches("my-org", ""));
}

#[test]
fn invalid_pattern_matches_nothing() {
    let org = Organisation { name: "o".to_string(), repo_pattern: "[".to_string(), is_user: false };
    assert!(!org.matches("o", "anything"));
    assert!(org.validate_pattern().is_err());
}

#[test]
fn test_project_url() {
    let project = GitHubProject {
        org: "my-org".to_string(),
        project_number: 42,
        name: "Test Project".to_string(),
    };
    assert_eq!(
        project.url("https://github.mycompany.com"),
        "https://github.mycompany.com/orgs/my-org/projects/42"
    );
}

#[test]
fn delivery_repo_names() {
    let repo = DeliveryRepo { org: "acme".to_string(), repo: "fw".to_string(), name: None };
    assert_eq!(repo.full_repo(), "acme/fw");
    assert_eq!(repo.display_name(), "fw");
    let named = DeliveryRepo { name: Some("Firmware".to_string()), ..repo };
    assert_eq!(named.display_name(), "Firmware");
}

#[test]
fn test_default_sizing() {
    let sizing = Sizing::default();
    assert_eq!(sizing.xs.points, 1);
    assert_eq!(sizing.s.points, 2);
    assert_eq!(sizing.m.points, 5);
    assert_eq!(sizing.l.points, 8);
    assert_eq!(sizing.xl.points, 13);
}

#[test]
fn test_points_for() {
    let sizing = Sizing::default();
    assert_eq!(sizing.points_for("XS"), Some(1));
    assert_eq!(sizing.points_for("xs"), Some(1));
    assert_eq!(sizing.points_for("m"), Some(5));
    assert_eq!(sizing.points_for("XXL"), None);
}

#[test]
fn points_ignore_ascii_case() {
    let sizing = Sizing::default();
    assert_eq!(sizing.points_for("Xl"), sizing.points_for("xl"));
    assert_eq!(sizing.points_for("xL"), Some(13));
    assert_eq!(sizing.points_for_size("L"), Some(8));
    assert_eq!(sizing.points_for_size("l"), None);
    assert_eq!(sizing.points_for_size("SIZE:M"), None);
}

#[test]
fn test_format_table() {
    let sizing = Sizing::default();
    let table = sizing.format_table();
    assert!(table.contains("XS=1pt"));
    assert!(table.contains("XL=13pt"));
}

#[test]
fn sizing_table_and_order() {
    let sizing = Sizing::default();
    let table = sizing.format_table();
    assert!(table.starts_with("XS=1pt ("));
    assert_eq!(table.matches(" | ").count(), 4);
    let labels: Vec<&str> = sizing.ordered().iter().map(|(l, _)| *l).collect();
    assert_eq!(labels, vec!["XS", "S", "M", "L", "XL"]);
    let map = sizing.as_map();
    assert_eq!(map.len(), 5);
}

#[test]
fn test_csci_repo_pairs() {
    let csci = Csci {
        name: "Test".to_string(),
        id: "CSCI-TEST".to_string(),
        target_date: ymd(2025, 6, 1),
        repos: vec!["org-a/repo-1".to_string(), "org-b/repo-2".to_string()],
        tier1_label: "ready".to_string(),
        tier2_label: "done".to_string(),
    };
    let pairs = csci.repo_pairs();
    assert_eq!(pairs.len(), 2);
    assert_eq!(pairs[0], ("org-a", "repo-1"));
    assert_eq!(pairs[1], ("org-b", "repo-2"));
    assert!(csci.contains_repo("org-a", "repo-1"));
    assert!(!csci.contains_repo("org-a", "repo-2"));
}

#[test]
fn test_document_overdue() {
    let d = doc("DOC-001", ymd(2025, 1, 10));
    assert!(!d.is_overdue(ymd(2025, 1, 5)));
    assert!(d.is_overdue(ymd(2025, 1, 15)));
    assert_eq!(d.days_until_due(ymd(2025, 1, 5)), 5);
    assert!(!d.is_overdue(ymd(2025, 1, 10)));
}

#[test]
fn test_demonstration_contains_date() {
    let demo = Demonstration {
        name: "PDR".to_string(),
        id: "DEMO-PDR".to_string(),
        start_date: ymd(2025, 10, 14),
        end_date: ymd(2025, 10, 16),
        description: None,
    };
    assert!(demo.contains_date(ymd(2025, 10, 15)));
    assert!(!demo.contains_date(ymd(2025, 10, 13)));
    assert!(!demo.contains_date(ymd(2025, 10, 17)));
    assert_eq!(demo.duration_days(), 3);
}

#[test]
fn upcoming_milestones_sorted_within_window() {
    let deliverables = Deliverables {
        documents: vec![doc("D1", ymd(2025, 3, 10)), doc("D2", ymd(2025, 1, 20)), doc("D3", ymd(2025, 9, 1))],
        csci: vec![Csci {
            name: "Core".to_string(),
            id: "C1".to_string(),
            target_date: ymd(2025, 1, 20),
            repos: vec![],
            tier1_label: "t1".to_string(),
            tier2_label: "t2".to_string(),
        }],
        demonstrations: vec![],
    };
    let ms = deliverables.upcoming_milestones(ymd(2025, 1, 1), 90);
    let ids: Vec<&str> = ms.iter().map(|m| m.id.as_str()).collect();
    assert_eq!(ids, vec!["D2", "C1", "D1"]);
    assert_eq!(ms[1].kind, MilestoneKind::Csci);
    assert_eq!(ms[0].days_until(ymd(2025, 1, 1)), 19);
    assert_eq!(deliverables.all_ids(), vec!["D1", "D2", "D3", "C1"]);
    assert_eq!(deliverables.document_by_id("D3").unwrap().id, "D3");
    assert!(deliverables.csci_by_id("nope").is_none());
}

#[test]
fn test_overdue_checks() {
    let dep = sample_dependency();
    let before_rc = ymd(2025, 7, 1);
    let between = ymd(2025, 9, 1);
    let after_final = ymd(2025, 11, 1);
    assert!(!dep.is_rc_overdue(before_rc));
    assert!(dep.is_rc_overdue(between));
    assert!(!dep.is_final_overdue(between));
    assert!(dep.is_final_overdue(after_final));
}

#[test]
fn test_status() {
    let dep = sample_dependency();
    let after_rc = ymd(2025, 9, 1);
    assert_eq!(dep.status(after_rc, false, false), DependencyStatus::RcOverdue);
    assert_eq!(dep.status(after_rc, true, false), DependencyStatus::RcReceived);
    assert_eq!(dep.status(after_rc, true, true), DependencyStatus::Complete);
}

#[test]
fn status_pending_and_final_overdue() {
    let dep = sample_dependency();
    assert_eq!(dep.status(ymd(2025, 7, 1), false, false), DependencyStatus::Pending);
    assert_eq!(dep.status(ymd(2025, 11, 1), true, false), DependencyStatus::FinalOverdue);
    assert!(DependencyStatus::FinalOverdue.is_at_risk());
    assert!(!DependencyStatus::Pending.is_at_risk());
    assert_eq!(DependencyStatus::RcReceived.as_str(), "RC Received");
}

#[test]
fn test_parse_tracking_issue() {
    let dep = sample_dependency();
    let parsed = dep.parse_tracking_issue().unwrap();
    assert_eq!(parsed, ("my-org", "my-repo", 42));
}

#[test]
fn test_parse_tracking_issue_invalid() {
    let mut dep = sample_dependency();
    dep.tracking_issue = Some("invalid-format".to_string());
    assert!(dep.parse_tracking_issue().is_none());
}

#[test]
fn parse_tracking_issue_other_shapes() {
    let mut dep = sample_dependency();
    dep.tracking_issue = Some("org/repo#x".to_string());
    assert!(dep.parse_tracking_issue().is_none());
    dep.tracking_issue = Some("a/b/c#7".to_string());
    assert_eq!(dep.parse_tracking_issue(), Some(("a", "b/c", 7)));
    dep.tracking_issue = None;
    assert!(dep.parse_tracking_issue().is_none());
}

#[test]
fn dependency_queries() {
    let deps = Dependencies { external: vec![sample_dependency()] };
    assert_eq!(deps.overdue(ymd(2025, 9, 1)).len(), 1);
    assert_eq!(deps.upcoming_rc(ymd(2025, 7, 25), 14).len(), 1);
    assert_eq!(deps.upcoming_final(ymd(2025, 7, 25), 14).len(), 0);
    assert!(deps.by_id("ICD-001").is_some());
    assert_eq!(sample_dependency().days_until_rc(ymd(2025, 7, 30)), 2);
}

#[test]
fn test_duration() {
    let project = Project {
        name: "Test".to_string(),
        start_date: ymd(2025, 1, 1),
        end_date: ymd(2025, 12, 31),
        backlog_completeness_bits: 1.0f64.to_bits(),
    };
    assert_eq!(project.duration_days(), 364);
    assert_eq!(project.days_elapsed(ymd(2025, 1, 11)), 10);
    assert_eq!(project.days_remaining(ymd(2025, 1, 11)), 354);
}

#[test]
fn test_leave_duration() {
    let leave = Leave {
        github: "test".to_string(),
        start: ymd(2025, 1, 5),
        end: ymd(2025, 1, 7),
        reason: None,
    };
    assert_eq!(leave.duration_days(), 3);
    assert!(leave.overlaps(ymd(2025, 1, 7), ymd(2025, 1, 9)));
    assert!(!leave.overlaps(ymd(2025, 1, 8), ymd(2025, 1, 9)));
}

#[test]
fn team_leave_queries() {
    let team = Team {
        members: vec![
            TeamMember { name: "Alice".to_string(), github: "alice".to_string(), capacity_bits: 1.0f64.to_bits() },
            TeamMember { name: "Bob".to_string(), github: "bob".to_string(), capacity_bits: 0.5f64.to_bits() },
        ],
        leave: vec![Leave {
            github: "alice".to_string(),
            start: ymd(2025, 1, 5),
            end: ymd(2025, 1, 7),
            reason: Some("PTO".to_string()),
        }],
    };
    assert!(team.is_on_leave("alice", ymd(2025, 1, 6)));
    assert!(!team.is_on_leave("alice", ymd(2025, 1, 8)));
    assert!(!team.is_on_leave("bob", ymd(2025, 1, 6)));
    assert_eq!(team.leave_in_range(ymd(2025, 1, 1), ymd(2025, 1, 5)).len(), 1);
    assert_eq!(team.member_by_github("bob").unwrap().name, "Bob");
    assert_eq!(team.headcount(), 2);
}

#[test]
fn stub_config_is_valid() {
    let stub = ProjectConfig::stub();
    assert_eq!(stub.project.name, "Project Name");
    assert!(stub.validate(true).is_ok());
    assert!(matches!(stub.validate(false), Err(ConfigError::BacklogCompletenessOutOfRange)));
}

#[test]
fn validation_errors() {
    let mut c = ProjectConfig::stub();
    c.project.end_date = c.project.start_date;
    assert!(matches!(c.validate(true), Err(ConfigError::EndNotAfterStart)));

    let mut c = ProjectConfig::stub();
    let first = c.deliverables.documents[0].id.clone();
    c.deliverables.csci[0].id = first.clone();
    match c.validate(true) {
        Err(ConfigError::DuplicateId(id)) => assert_eq!(id, first),
        _ => panic!("expected a duplicate ID"),
    }

    let mut c = ProjectConfig::stub();
    c.github.organisations[0].repo_pattern = "(".to_string();
    match c.validate(true) {
        Err(ConfigError::InvalidPattern { org, .. }) => assert_eq!(org, c.github.organisations[0].name),
        _ => panic!("expected an invalid pattern"),
    }
}

#[test]
fn stub_comments_come_first() {
    let out = add_stub_comments("[project]\n");
    assert!(out.starts_with("# deltav Project Configuration\n"));
    assert!(out.ends_with("#\n\n[project]\n"));
    assert_eq!(out.len(), STUB_HEADER.len() + "[project]\n".len());
}

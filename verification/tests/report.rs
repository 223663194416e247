use deltav::calendar::{Date, Timestamp};
use deltav::github::types::{Issue, Label, Release, User};
use deltav::report::data::{
    BacklogChange, BuildError, CapacitySummary, CsciStatus, DeliveryKind, DependencyStatusKind,
    DocumentStatus, DocumentStatusKind, ProjectStatus, ProjectTimeline, Projection, ReportBuilder,
    ReportData, ReportMeta, TicketSummary, WeeklySummary,
};
use deltav::report::texts::CsciTexts;
use deltav::report::html::html_escape;
use deltav::report::metrics::{
    backlog_change, blocked_ticket, calculate_document_status, calculate_ticket_metrics,
    count_open, csci_counts, csci_status, deliveries_from_releases, dependency_entry,
    document_status, find_blocked_tickets, issue_points, leave_entries, milestone_statuses,
    projection_for, report_window, rolling_velocity_checked, rolling_velocity_parts,
    summarize_distraction, summarize_distractions, ticket_metrics_checked, ticket_summary, tracking_flags,
};
use deltav::schema::sizing::TShirtSize;
use deltav::schema::deliverables::{Csci, Deliverables, Document};
use deltav::schema::dependencies::ExternalDependency;
use deltav::schema::github::{DeliveryRepo, Distraction};
use deltav::schema::sizing::Sizing;
use deltav::schema::team::{Leave, Team, TeamMember};

const DAY: i64 = 86_400;

fn ymd(y: i32, m: u32, d: u32) -> Date {
    Date::from_ymd(y, m, d).unwrap()
}

/// Seconds since the epoch at noon UTC of a date.
fn noon(d: Date) -> Timestamp {
    let epoch = ymd(1970, 1, 1);
    Timestamp { secs: d.days_since(epoch) * DAY + 12 * 3600, nanos: 0 }
}

fn user(login: &str) -> User {
    User { id: 1, login: login.to_string(), html_url: String::new(), user_type: None }
}

fn label(name: &str) -> Label {
    Label { id: 1, name: name.to_string(), color: String::new(), description: None }
}

fn issue(number: u64, state: &str, repo: &str, labels: &[&str]) -> Issue {
    let created = noon(ymd(2026, 1, 1));
    Issue {
        id: number,
        number,
        title: format!("Issue {}", number),
        body: None,
        state: state.to_string(),
        html_url: String::new(),
        repository_url: format!("https://api.github.com/repos/{}", repo),
        user: user("author"),
        labels: labels.iter().map(|l| label(l)).collect(),
        assignees: vec![],
        milestone: None,
        created_at: created,
        updated_at: created,
        closed_at: None,
        pull_request: None,
    }
}

fn closed_on(mut i: Issue, d: Date) -> Issue {
    i.state = "closed".to_string();
    i.closed_at = Some(noon(d));
    i
}

fn created_on(mut i: Issue, d: Date) -> Issue {
    i.created_at = noon(d);
    i
}

#[test]
fn test_ticket_summary_trend() {
    let up = TicketSummary {
        closed: 15,
        closed_prev: 10,
        opened: 5,
        net: 10,
        points_delivered: 30,
        velocity_avg_bits: 25.0f64.to_bits(),
    };
    assert_eq!(up.closed_trend(), "▲");

    let down = TicketSummary {
        closed: 8,
        closed_prev: 10,
        opened: 5,
        net: 3,
        points_delivered: 20,
        velocity_avg_bits: 25.0f64.to_bits(),
    };
    assert_eq!(down.closed_trend(), "▼");
}

#[test]
fn trend_level_and_backlog_net() {
    let level = TicketSummary {
        closed: 4,
        closed_prev: 4,
        opened: 1,
        net: 3,
        points_delivered: 0,
        velocity_avg_bits: 0,
    };
    assert_eq!(level.closed_trend(), "─");
    let b = BacklogChange { start: 100, end: 95, new_work: 3, new_work_note: None };
    assert_eq!(b.net(), -5);
}

#[test]
fn test_html_escape() {
    assert_eq!(html_escape("<script>"), "&lt;script&gt;");
    assert_eq!(html_escape("a & b"), "a &amp; b");
}

#[test]
fn html_escape_quotes_and_entities() {
    assert_eq!(html_escape("say \"hi\""), "say &quot;hi&quot;");
    assert_eq!(html_escape("&lt;"), "&amp;lt;");
    let escaped = html_escape("<a href=\"x\">&</a>");
    assert!(!escaped.contains('<') && !escaped.contains('>') && !escaped.contains('"'));
}

#[test]
fn display_symbols() {
    assert_eq!(Projection::AtRisk.as_str(), "At risk");
    assert_eq!(Projection::Behind.symbol(), "✗");
    assert_eq!(DependencyStatusKind::RcReceived.symbol(), "◐");
    assert!(DependencyStatusKind::RcOverdue.is_at_risk());
    assert!(!DependencyStatusKind::Complete.is_at_risk());
    assert_eq!(DocumentStatusKind::NotStarted.symbol(), "○");
}

#[test]
fn builder_reports_first_missing_part() {
    let b = ReportBuilder::new();
    assert_eq!(b.build().unwrap_err(), BuildError::MissingMeta);
    assert_eq!(BuildError::MissingWeekly.message(), "Missing weekly summary");
}

#[test]
fn ticket_metrics_for_a_week() {
    let sizing = Sizing::default();
    let start = ymd(2026, 1, 5);
    let end = ymd(2026, 1, 11);
    let issues = vec![
        closed_on(issue(1, "open", "o/r", &["M"]), ymd(2026, 1, 6)),
        closed_on(issue(2, "open", "o/r", &["xl"]), ymd(2026, 1, 11)),
        closed_on(issue(3, "open", "o/r", &["bug"]), ymd(2026, 1, 7)),
        closed_on(issue(4, "open", "o/r", &["L"]), ymd(2026, 1, 12)),
        created_on(issue(5, "open", "o/r", &[]), ymd(2026, 1, 5)),
        created_on(issue(6, "open", "o/r", &[]), ymd(2026, 1, 4)),
    ];
    assert_eq!(issue_points(&issues[1], &sizing), 13);
    // A prefixed size label earns the points of its size part.
    assert_eq!(issue_points(&issue(7, "open", "o/r", &["size: xl"]), &sizing), 13);
    assert_eq!(issue_points(&issue(8, "open", "o/r", &["size:M"]), &sizing), 5);
    assert_eq!(calculate_ticket_metrics(&issues, start, end, &sizing), (3, 1, 18));
    assert_eq!(count_open(&issues), 2);
}

#[test]
fn rolling_velocity_counts_weeks_with_points() {
    let sizing = Sizing::default();
    let end = ymd(2026, 1, 11);
    let issues = vec![
        closed_on(issue(1, "open", "o/r", &["M"]), ymd(2026, 1, 10)),
        closed_on(issue(2, "open", "o/r", &["S"]), ymd(2026, 1, 9)),
        closed_on(issue(3, "open", "o/r", &["XL"]), ymd(2025, 12, 22)),
        closed_on(issue(4, "open", "o/r", &["L"]), ymd(2025, 12, 1)),
    ];
    assert_eq!(rolling_velocity_parts(&issues, end, 4, &sizing), (20, 2));
    assert_eq!(rolling_velocity_parts(&issues, end, 0, &sizing), (0, 0));
}

#[test]
fn blocked_tickets_of_open_issues() {
    let issues = vec![
        issue(1, "open", "acme/fw", &["bug", "blocked:external"]),
        issue(2, "closed", "acme/fw", &["blocked"]),
        issue(3, "open", "acme/fw", &["ready"]),
    ];
    let blocked = find_blocked_tickets(&issues);
    assert_eq!(blocked.len(), 1);
    assert_eq!(blocked[0].repo, "acme/fw");
    assert_eq!(blocked[0].number, 1);
    assert_eq!(blocked[0].blocked_on, "blocked:external");
    let mut odd = issue(9, "open", "x", &[]);
    odd.repository_url = "nowhere".to_string();
    let t = blocked_ticket(&odd);
    assert_eq!(t.repo, "unknown/unknown");
    assert_eq!(t.blocked_on, "Unknown");
}

#[test]
fn deliveries_in_the_week() {
    let repo = DeliveryRepo { org: "acme".to_string(), repo: "fw".to_string(), name: Some("Firmware".to_string()) };
    let mk = |tag: &str, d: Date| Release {
        id: 1,
        tag_name: tag.to_string(),
        name: None,
        body: None,
        draft: false,
        prerelease: false,
        created_at: noon(d),
        published_at: Some(noon(d)),
        html_url: String::new(),
        author: user("rel"),
    };
    let releases = vec![mk("v1", ymd(2026, 1, 6)), mk("v0", ymd(2025, 12, 30))];
    let items = deliveries_from_releases(&repo, &releases, ymd(2026, 1, 5), ymd(2026, 1, 11));
    assert_eq!(items.len(), 1);
    assert_eq!(items[0].id, "v1");
    assert_eq!(items[0].name, "Firmware v1");
    assert_eq!(items[0].kind, DeliveryKind::Release);
    assert!(!items[0].was_blocked);
}

#[test]
fn distraction_summary_counts_and_people() {
    let d = Distraction {
        org: "acme".to_string(),
        repo: "support".to_string(),
        label: Some("ops".to_string()),
        name: "Support".to_string(),
    };
    let mut a = issue(1, "open", "acme/support", &["ops"]);
    a.assignees = vec![user("ann"), user("bob")];
    let mut b = issue(2, "open", "acme/support", &["ops"]);
    b.assignees = vec![user("bob")];
    let c = issue(3, "open", "acme/support", &["other"]);
    let s = summarize_distraction(&d, &vec![a, b, c]);
    assert_eq!(s.name, "Support");
    assert_eq!(s.ticket_count, 2);
    assert_eq!(s.estimated_hours_bits, None);
    let mut people = s.assignees.clone();
    people.sort();
    assert_eq!(people, vec!["ann".to_string(), "bob".to_string()]);
    let none = summarize_distraction(&d, &vec![issue(4, "open", "acme/support", &[])]);
    assert_eq!(none.name, "Support");
    assert_eq!(none.ticket_count, 0);
    assert!(none.assignees.is_empty());
}

#[test]
fn dependency_flags_and_entry() {
    assert_eq!(tracking_flags(&issue(1, "open", "o/r", &["rc-received"])), (true, false));
    assert_eq!(tracking_flags(&issue(1, "open", "o/r", &["final-received-v2"])), (true, true));
    assert_eq!(tracking_flags(&issue(1, "closed", "o/r", &[])), (true, true));
    assert_eq!(tracking_flags(&issue(1, "open", "o/r", &[])), (false, false));
    let dep = ExternalDependency {
        name: "ICD".to_string(),
        id: "ICD-1".to_string(),
        owner: "Team".to_string(),
        rc_due: ymd(2025, 8, 1),
        final_due: ymd(2025, 10, 1),
        tracking_issue: None,
    };
    let e = dependency_entry(&dep, ymd(2025, 11, 1), true, false);
    assert_eq!(e.status, DependencyStatusKind::FinalOverdue);
    assert_eq!(e.id, "ICD-1");
    assert_eq!(dependency_entry(&dep, ymd(2025, 7, 1), false, false).status, DependencyStatusKind::Pending);
}

#[test]
fn document_statuses() {
    let mut d = Document {
        name: "SRS".to_string(),
        id: "SRS-1".to_string(),
        due_date: ymd(2026, 1, 10),
        status_label: Some("doc:srs".to_string()),
        depends_on: vec![],
    };
    let done = vec![
        closed_on(issue(1, "open", "o/r", &["doc:srs"]), ymd(2026, 1, 3)),
        closed_on(issue(2, "open", "o/r", &["doc:srs"]), ymd(2026, 1, 8)),
        issue(3, "open", "o/r", &["other"]),
    ];
    let s = document_status(&d, &done, ymd(2026, 1, 20));
    assert_eq!(s.status, DocumentStatusKind::Complete);
    assert_eq!(s.completed_date, Some(ymd(2026, 1, 8)));
    let busy = vec![issue(4, "open", "o/r", &["doc:srs"])];
    assert_eq!(document_status(&d, &busy, ymd(2026, 1, 20)).status, DocumentStatusKind::InProgress);
    assert_eq!(document_status(&d, &vec![], ymd(2026, 1, 20)).status, DocumentStatusKind::Overdue);
    assert_eq!(document_status(&d, &vec![], ymd(2026, 1, 5)).status, DocumentStatusKind::NotStarted);
    d.status_label = None;
    let all = calculate_document_status(&done, &vec![d], ymd(2026, 1, 5));
    assert_eq!(all.len(), 1);
    assert_eq!(all[0].status, DocumentStatusKind::NotStarted);
}

#[test]
fn csci_counts_and_projection() {
    let csci = Csci {
        name: "Flight".to_string(),
        id: "CSCI-F".to_string(),
        target_date: ymd(2026, 2, 1),
        repos: vec!["acme/fw".to_string()],
        tier1_label: "ready".to_string(),
        tier2_label: "hil".to_string(),
    };
    let issues = vec![
        issue(1, "closed", "acme/fw", &["ready", "hil"]),
        issue(2, "closed", "acme/fw", &[]),
        issue(3, "open", "acme/fw", &["ready"]),
        issue(4, "closed", "acme/other", &["ready"]),
    ];
    let c = csci_counts(&csci, &issues);
    assert_eq!((c.total, c.tier1, c.tier2), (3, 1, 1));
    let unlabeled = vec![issue(1, "closed", "acme/fw", &[]), issue(2, "open", "acme/fw", &[])];
    let c2 = csci_counts(&csci, &unlabeled);
    assert_eq!((c2.total, c2.tier1, c2.tier2), (2, 1, 0));
    assert_eq!(projection_for(true, false, -5), Projection::Complete);
    assert_eq!(projection_for(false, false, -1), Projection::Behind);
    assert_eq!(projection_for(false, true, 29), Projection::AtRisk);
    assert_eq!(projection_for(false, true, 30), Projection::OnTrack);
    let s = csci_status(&csci, c, ymd(2026, 1, 20), 33.3f64.to_bits(), false, true);
    assert_eq!(s.days_until, 12);
    assert_eq!(s.projection, Projection::AtRisk);
    assert_eq!(s.buffer_days, 0);
}

#[test]
fn leave_entries_of_known_members() {
    let team = Team {
        members: vec![TeamMember { name: "Alice".to_string(), github: "alice".to_string(), capacity_bits: 1.0f64.to_bits() }],
        leave: vec![
            Leave { github: "alice".to_string(), start: ymd(2026, 1, 6), end: ymd(2026, 1, 7), reason: Some("PTO".to_string()) },
            Leave { github: "ghost".to_string(), start: ymd(2026, 1, 6), end: ymd(2026, 1, 7), reason: None },
            Leave { github: "alice".to_string(), start: ymd(2026, 2, 6), end: ymd(2026, 2, 7), reason: None },
        ],
    };
    let e = leave_entries(&team, ymd(2026, 1, 5), ymd(2026, 1, 11));
    assert_eq!(e.len(), 1);
    assert_eq!(e[0].name, "Alice");
    assert_eq!(e[0].reason.as_deref(), Some("PTO"));
    assert_eq!(e[0].capacity_percent, 0);
}

#[test]
fn milestone_entries_and_window() {
    let d = Deliverables {
        documents: vec![Document {
            name: "SRS".to_string(),
            id: "SRS-1".to_string(),
            due_date: ymd(2026, 2, 1),
            status_label: None,
            depends_on: vec![],
        }],
        csci: vec![],
        demonstrations: vec![],
    };
    let ms = milestone_statuses(&d, ymd(2026, 1, 11));
    assert_eq!(ms.len(), 1);
    assert_eq!(ms[0].days_until, 21);
    let w = report_window(ymd(2026, 1, 5));
    assert_eq!(w.week_end, ymd(2026, 1, 11));
    assert_eq!(w.prev_week_start, ymd(2025, 12, 29));
    assert_eq!(w.prev_week_end, ymd(2026, 1, 4));
    assert_eq!(w.historical_start, ymd(2025, 12, 8));
}

#[test]
fn week_summaries() {
    let t = ticket_summary(3, 5, 7, 18, 0);
    assert_eq!(t.net, -4);
    let b = backlog_change(40, 3, 7);
    assert_eq!((b.start, b.end, b.new_work), (43, 40, 7));
    assert_eq!(b.net(), -3);
}

fn sample_report() -> ReportData {
    ReportData {
        meta: ReportMeta {
            project_name: "Test Project".to_string(),
            week: "2026-W02".to_string(),
            week_start: ymd(2026, 1, 5),
            week_end: ymd(2026, 1, 11),
            generated_at: noon(ymd(2026, 1, 12)),
        },
        weekly: WeeklySummary {
            deliveries: vec![],
            tickets: TicketSummary {
                closed: 10,
                closed_prev: 8,
                opened: 5,
                net: 5,
                points_delivered: 25,
                velocity_avg_bits: 22.0f64.to_bits(),
            },
            backlog: BacklogChange {
                start: 100,
                end: 95,
                new_work: 3,
                new_work_note: Some("discovery".to_string()),
            },
            capacity: CapacitySummary {
                nominal_bits: 3.0f64.to_bits(),
                actual_bits: 2.5f64.to_bits(),
                leave: vec![],
                expected_velocity: 20,
                actual_velocity: 25,
            },
            blocked: vec![],
            distractions: vec![],
        },
        project: ProjectStatus {
            timeline: ProjectTimeline {
                days_elapsed: 100,
                total_days: 365,
                percent_elapsed_bits: 27.4f64.to_bits(),
            },
            cscis: vec![],
            dependencies: vec![],
            documents: vec![],
            milestones: vec![],
        },
    }
}

fn sample_texts() -> deltav::report::texts::NumberTexts {
    deltav::report::texts::NumberTexts {
        velocity_avg: format!("{:.0}", 22.0f64),
        performance_percent: format!("{:.0}", 125.0f64),
        performance_met: true,
        percent_elapsed: format!("{:.0}", 27.4f64),
        cscis: vec![],
        distraction_hours: vec![],
    }
}

#[test]
fn test_render_produces_output() {
    let report = sample_report();
    let md = deltav::report::markdown::render(&report, &sample_texts());
    assert!(md.contains("Test Project"));
    assert!(md.contains("2026-W02"));
    assert!(md.contains("Ticket Summary"));
}

#[test]
fn test_render_produces_valid_html() {
    let report = sample_report();
    let html = deltav::report::html::render(&report, &sample_texts());
    assert!(html.contains("<!DOCTYPE html>"));
    assert!(html.contains("</html>"));
    assert!(html.contains("Test Project"));
}

#[test]
fn markdown_lines_for_a_sample_week() {
    let md = deltav::report::markdown::render(&sample_report(), &sample_texts());
    assert!(md.starts_with("# DELTAV WEEKLY REPORT — Test Project — 2026-W02\n**2026-01-05 to 2026-01-11**\n\n"));
    assert!(md.contains("| Closed | 10 (▲ from 8) |\n"));
    assert!(md.contains("| Net | +5 toward done |\n"));
    assert!(md.contains("| Velocity (4wk avg) | 22 |\n"));
    assert!(md.contains("- New work: 3 tickets (discovery)\n"));
    assert!(md.contains("- Actual: 25 points (125% of adjusted target) ✓\n"));
    assert!(md.contains("\n---\n\n# PROJECT STATUS — Test Project\n**As of 2026-01-11 | Day 100 of 365 (27% elapsed)**\n\n"));
    assert!(md.contains("_No upcoming milestones._\n\n"));
    assert!(md.ends_with("XL=13pt (week+)\n\n"));
}

#[test]
fn html_escapes_names_and_marks_classes() {
    let mut report = sample_report();
    report.meta.project_name = "R&D <X>".to_string();
    report.project.documents.push(DocumentStatus {
        id: "SRS-1".to_string(),
        name: "SRS".to_string(),
        due_date: ymd(2026, 1, 1),
        status: DocumentStatusKind::Overdue,
        completed_date: None,
        note: None,
    });
    let html = deltav::report::html::render(&report, &sample_texts());
    assert!(html.contains("<h1>DELTAV WEEKLY REPORT — R&amp;D &lt;X&gt; — 2026-W02</h1>"));
    assert!(html.contains("<li class=\"bad\"><strong>SRS</strong> (SRS-1): ✗ Overdue (was due 2026-01-01)</li>\n"));
    assert!(html.contains("<div class=\"page-break\"></div><div class=\"page\">"));
}

#[test]
fn test_csci_progress_bar() {
    let completion: f64 = 50.0;
    let filled = ((completion / 100.0) * 20 as f64) as usize;
    let bar = deltav::report::texts::progress_bar_cells(filled, 20);
    assert_eq!(bar, "██████████░░░░░░░░░░");
}

#[test]
fn markdown_csci_block() {
    let mut report = sample_report();
    report.project.cscis.push(CsciStatus {
        id: "CSCI-F".to_string(),
        name: "Flight".to_string(),
        target_date: ymd(2026, 2, 1),
        days_until: 21,
        total_tickets: 4,
        tier1_complete: 2,
        tier2_complete: 1,
        completion_percent_bits: 50.0f64.to_bits(),
        projection: Projection::AtRisk,
        buffer_days: -3,
    });
    let mut texts = sample_texts();
    texts.cscis.push(CsciTexts { completion: "50".to_string(), bar_width: "50".to_string(), filled_cells: 12 });
    let md = deltav::report::markdown::render(&report, &texts);
    assert!(md.contains("### Flight (CSCI-F) — Target: 2026-02-01\n\n```\n████████████░░░░░░░░░░░░░ 50% complete\n```\n\n"));
    assert!(md.contains("- **Tier 1** (integration-ready): 2/4 tickets\n"));
    assert!(md.contains("- **Projection**: ⚠ At risk (3 days behind)\n\n"));
}

#[test]
fn date_texts() {
    assert_eq!(ymd(2026, 1, 5).to_text(), "2026-01-05");
    assert_eq!(ymd(12, 11, 30).to_text(), "0012-11-30");
    assert_eq!(ymd(-44, 3, 15).to_text(), "-0044-03-15");
    assert_eq!(ymd(12345, 6, 7).to_text(), "+12345-06-07");
}

fn huge_sizing() -> Sizing {
    let mut s = Sizing::default();
    s.xl = TShirtSize { points: u32::MAX, description: "huge".to_string() };
    s
}

#[test]
fn checked_metrics_report_overflow() {
    let sizing = huge_sizing();
    let start = ymd(2026, 1, 5);
    let end = ymd(2026, 1, 11);
    let one = vec![closed_on(issue(1, "open", "o/r", &["XL"]), ymd(2026, 1, 6))];
    assert_eq!(ticket_metrics_checked(&one, start, end, &sizing), Some((1, 0, u32::MAX)));
    let two = vec![
        closed_on(issue(1, "open", "o/r", &["XL"]), ymd(2026, 1, 6)),
        closed_on(issue(2, "open", "o/r", &["S"]), ymd(2026, 1, 7)),
    ];
    assert_eq!(ticket_metrics_checked(&two, start, end, &sizing), None);
    let spread = vec![
        closed_on(issue(1, "open", "o/r", &["XL"]), ymd(2026, 1, 6)),
        closed_on(issue(2, "open", "o/r", &["S"]), ymd(2025, 12, 30)),
    ];
    assert_eq!(rolling_velocity_checked(&spread, end, 1, &sizing), Some((u32::MAX, 1)));
    assert_eq!(rolling_velocity_checked(&spread, end, 2, &sizing), None);
    let normal = Sizing::default();
    assert_eq!(rolling_velocity_checked(&spread, end, 2, &normal), Some((15, 2)));
}

#[test]
fn csci_tiers_never_exceed_total() {
    let csci = Csci {
        name: "Flight".to_string(),
        id: "CSCI-F".to_string(),
        target_date: ymd(2026, 2, 1),
        repos: vec!["acme/fw".to_string()],
        tier1_label: "ready".to_string(),
        tier2_label: "hil".to_string(),
    };
    let issues = vec![
        issue(1, "closed", "acme/fw", &["ready", "hil"]),
        issue(2, "closed", "acme/other", &["ready", "hil"]),
        issue(3, "closed", "acme/fw", &["hil"]),
    ];
    let c = csci_counts(&csci, &issues);
    assert!(c.tier1 <= c.total && c.tier2 <= c.total);
    assert_eq!((c.total, c.tier1, c.tier2), (2, 1, 2));
}

#[test]
fn closed_tracking_issue_completes_the_dependency() {
    let dep = ExternalDependency {
        name: "ICD".to_string(),
        id: "ICD-1".to_string(),
        owner: "Team".to_string(),
        rc_due: ymd(2025, 8, 1),
        final_due: ymd(2025, 10, 1),
        tracking_issue: Some("o/r#1".to_string()),
    };
    let closed = issue(1, "closed", "o/r", &[]);
    let (rc, fin) = tracking_flags(&closed);
    assert!(rc && fin);
    assert_eq!(dependency_entry(&dep, ymd(2026, 1, 1), rc, fin).status, DependencyStatusKind::Complete);
    let (rc, fin) = tracking_flags(&issue(2, "open", "o/r", &["final-received"]));
    assert!(fin && rc);
}

#[test]
fn blocked_on_names_a_blocked_label() {
    let issues = vec![issue(1, "open", "a/b", &["ready", "blocked-by-hw", "blocked"])];
    let blocked = find_blocked_tickets(&issues);
    assert_eq!(blocked.len(), 1);
    assert!(blocked[0].blocked_on.starts_with("blocked"));
    assert_eq!(blocked[0].blocked_on, "blocked-by-hw");
}

#[test]
fn builder_with_all_parts_builds_the_report() {
    let sample = sample_report();
    let built = ReportBuilder::new()
        .meta(sample.meta.clone())
        .weekly(sample.weekly.clone())
        .project(sample.project.clone())
        .build()
        .unwrap();
    assert_eq!(built.meta.project_name, "Test Project");
    assert_eq!(built.weekly.tickets.closed, 10);
    assert_eq!(built.project.timeline.total_days, 365);
    let missing_project = ReportBuilder::new().meta(sample.meta.clone()).weekly(sample.weekly.clone()).build();
    assert_eq!(missing_project.unwrap_err(), BuildError::MissingProject);
    let missing_weekly = ReportBuilder::new().meta(sample.meta).build();
    assert_eq!(missing_weekly.unwrap_err(), BuildError::MissingWeekly);
}

#[test]
fn prefixed_size_label_closed_in_week() {
    let sizing = Sizing::default();
    let start = ymd(2026, 1, 5);
    let end = ymd(2026, 1, 11);
    let x = closed_on(created_on(issue(1, "open", "o/r", &["size:M"]), ymd(2026, 1, 2)), ymd(2026, 1, 8));
    assert_eq!(calculate_ticket_metrics(&vec![x], start, end, &sizing), (1, 0, 5));
}

#[test]
fn one_distraction_summary_per_source() {
    let support = Distraction {
        org: "acme".to_string(),
        repo: "support".to_string(),
        label: None,
        name: "Support".to_string(),
    };
    let ops = Distraction {
        org: "acme".to_string(),
        repo: "ops".to_string(),
        label: Some("urgent".to_string()),
        name: "Ops".to_string(),
    };
    let mut a = issue(1, "open", "acme/support", &[]);
    a.assignees = vec![user("ann"), user("ann")];
    let fetched = vec![vec![a], vec![issue(2, "open", "acme/ops", &["later"])]];
    let all = summarize_distractions(&vec![support, ops], &fetched);
    assert_eq!(all.len(), 2);
    assert_eq!(all[0].name, "Support");
    assert_eq!(all[0].ticket_count, 1);
    assert_eq!(all[0].assignees, vec!["ann".to_string()]);
    assert_eq!(all[1].name, "Ops");
    assert_eq!(all[1].ticket_count, 0);
    assert!(all[1].assignees.is_empty());
}

#[test]
fn html_escape_round_trip() {
    let input = "a & b <c> \"d\" &amp; &lt;";
    let escaped = html_escape(input);
    assert_eq!(escaped, "a &amp; b &lt;c&gt; &quot;d&quot; &amp;amp; &amp;lt;");
    let decoded = escaped
        .replace("&quot;", "\"")
        .replace("&gt;", ">")
        .replace("&lt;", "<")
        .replace("&amp;", "&");
    assert_eq!(decoded, input);
}

//! Metrics computed from issues and configuration for a weekly report.

use vstd::prelude::*;
use crate::calendar::{Date, Timestamp, day_in_range, ts_le, utc_day};
use crate::github::types::{
    Issue,
    Label,
    Release,
    has_label_spec,
    has_label_prefix_spec,
    org_repo_spec,
    size_label_spec,
    size_part,
    size_part_of,
};
use crate::report::data::{
    BlockedTicket,
    CsciStatus,
    DeliveryItem,
    DeliveryKind,
    DependencyStatusKind,
    DistractionSummary,
    DocumentStatus,
    DocumentStatusKind,
    LeaveEntry,
    MilestoneStatus,
    Projection,
};
use crate::schema::deliverables::{
    Csci,
    Deliverables,
    Document,
    Milestone,
    milestone_candidates,
    stable_date_sort_of,
};
use crate::schema::team::{Leave, Team, TeamMember, leave_in_range_spec};
use crate::schema::dependencies::{ExternalDependency, status_spec};
use crate::schema::github::{DeliveryRepo, Distraction};
use crate::text;
use crate::schema::sizing::{Sizing, points_for_spec};

verus! {

// ---------------------------------------------------------------------------
// Ticket counts and points
// ---------------------------------------------------------------------------

/// The issue was created on a UTC day in `lo..=hi`.
pub open spec fn created_in(i: Issue, lo: int, hi: int) -> bool {
    lo <= utc_day(i.created_at.secs as int) <= hi
}

/// The issue was closed on a UTC day in `lo..=hi`.
pub open spec fn closed_in(i: Issue, lo: int, hi: int) -> bool {
    match i.closed_at {
        Some(t) => lo <= utc_day(t.secs as int) <= hi,
        None => false,
    }
}

/// The issue's state is "open".
pub open spec fn is_open_spec(i: Issue) -> bool {
    i.state@ == "open"@
}

/// The issue's state is "closed".
pub open spec fn is_closed_spec(i: Issue) -> bool {
    i.state@ == "closed"@
}

/// Number of issues in `s` that satisfy `p`.
pub open spec fn count_issues(s: Seq<Issue>, p: spec_fn(Issue) -> bool) -> nat
    decreases s.len(),
{
    if s.len() == 0 {
        0
    } else {
        count_issues(s.drop_last(), p) + if p(s.last()) {
            1nat
        } else {
            0nat
        }
    }
}

/// Points of an issue: those of the size its first size label names (a
/// label `size:M` names M) under `sizing`, else 0.
pub open spec fn issue_points_spec(i: Issue, sizing: Sizing) -> nat {
    match size_label_spec(i.labels@) {
        Some(l) => match points_for_spec(sizing, size_part(l)) {
            Some(p) => p as nat,
            None => 0,
        },
        None => 0,
    }
}

/// Sum of the points of the issues of `s` closed on a day in `lo..=hi`.
pub open spec fn points_closed_in(s: Seq<Issue>, sizing: Sizing, lo: int, hi: int) -> nat
    decreases s.len(),
{
    if s.len() == 0 {
        0
    } else {
        points_closed_in(s.drop_last(), sizing, lo, hi) + if closed_in(s.last(), lo, hi) {
            issue_points_spec(s.last(), sizing)
        } else {
            0nat
        }
    }
}

/// Every issue's instants fall on representable dates.
pub open spec fn all_wf(s: Seq<Issue>) -> bool {
    forall|i: int| 0 <= i < s.len() ==> (#[trigger] s[i]).wf()
}

/// Points of a prefix are at most those of the whole sequence.
pub proof fn lemma_points_prefix(s: Seq<Issue>, sizing: Sizing, lo: int, hi: int, k: int)
    requires
        0 <= k <= s.len(),
    ensures
        points_closed_in(s.take(k), sizing, lo, hi) <= points_closed_in(s, sizing, lo, hi),
    decreases s.len(),
{
    if k < s.len() {
        assert(s.drop_last().take(k) =~= s.take(k));
        lemma_points_prefix(s.drop_last(), sizing, lo, hi, k);
    } else {
        assert(s.take(k) =~= s);
    }
}

/// Points of an issue: those of the size its first size label names, else 0.
pub fn issue_points(issue: &Issue, sizing: &Sizing) -> (r: u32)
    ensures
        r == issue_points_spec(*issue, *sizing),
{
    match issue.size_label() {
        Some(label) => match sizing.points_for(size_part_of(label).as_str()) {
            Some(p) => p,
            None => 0,
        },
        None => 0,
    }
}

/// Tickets closed and opened in `week_start..=week_end` (UTC dates), and the
/// points of those closed.
pub fn calculate_ticket_metrics(
    issues: &Vec<Issue>,
    week_start: Date,
    week_end: Date,
    sizing: &Sizing,
) -> (r: (u32, u32, u32))
    requires
        all_wf(issues@),
        issues.len() <= u32::MAX,
        points_closed_in(issues@, *sizing, week_start.day as int, week_end.day as int)
            <= u32::MAX,
    ensures
        r.0 == count_issues(
            issues@,
            |i: Issue| closed_in(i, week_start.day as int, week_end.day as int),
        ),
        r.1 == count_issues(
            issues@,
            |i: Issue| created_in(i, week_start.day as int, week_end.day as int),
        ),
        r.2 == points_closed_in(issues@, *sizing, week_start.day as int, week_end.day as int),
{
    let ghost lo = week_start.day as int;
    let ghost hi = week_end.day as int;
    let ghost pc = |i: Issue| closed_in(i, lo, hi);
    let ghost po = |i: Issue| created_in(i, lo, hi);
    let mut closed: u32 = 0;
    let mut opened: u32 = 0;
    let mut points: u32 = 0;
    let mut k: usize = 0;
    while k < issues.len()
        invariant
            k <= issues.len() <= u32::MAX,
            all_wf(issues@),
            lo == week_start.day,
            hi == week_end.day,
            pc == (|i: Issue| closed_in(i, lo, hi)),
            po == (|i: Issue| created_in(i, lo, hi)),
            points_closed_in(issues@, *sizing, lo, hi) <= u32::MAX,
            closed == count_issues(issues@.take(k as int), pc),
            opened == count_issues(issues@.take(k as int), po),
            points == points_closed_in(issues@.take(k as int), *sizing, lo, hi),
            closed <= k,
            opened <= k,
        decreases issues.len() - k,
    {
        let issue = &issues[k];
        proof {
            assert(issues@.take(k + 1).drop_last() =~= issues@.take(k as int));
            assert(issues@[k as int].wf());
            lemma_points_prefix(issues@, *sizing, lo, hi, k + 1);
        }
        let created = issue.created_at.date();
        if created.day >= week_start.day && created.day <= week_end.day {
            opened = opened + 1;
        }
        let closed_here = match &issue.closed_at {
            Some(t) => {
                let d = t.date();
                d.day >= week_start.day && d.day <= week_end.day
            },
            None => false,
        };
        if closed_here {
            closed = closed + 1;
            points = points + issue_points(issue, sizing);
        }
        k = k + 1;
    }
    proof {
        assert(issues@.take(k as int) =~= issues@);
    }
    (closed, opened, points)
}

/// The week's ticket metrics as `calculate_ticket_metrics` gives them, or
/// `None` when the points do not fit in a `u32`.
pub fn ticket_metrics_checked(
    issues: &Vec<Issue>,
    week_start: Date,
    week_end: Date,
    sizing: &Sizing,
) -> (r: Option<(u32, u32, u32)>)
    requires
        all_wf(issues@),
        issues.len() <= u32::MAX,
    ensures
        r is None <==> points_closed_in(
            issues@,
            *sizing,
            week_start.day as int,
            week_end.day as int,
        ) > u32::MAX,
        r matches Some(m) ==> {
            &&& m.0 == count_issues(
                issues@,
                |i: Issue| closed_in(i, week_start.day as int, week_end.day as int),
            )
            &&& m.1 == count_issues(
                issues@,
                |i: Issue| created_in(i, week_start.day as int, week_end.day as int),
            )
            &&& m.2 == points_closed_in(
                issues@,
                *sizing,
                week_start.day as int,
                week_end.day as int,
            )
        },
{
    let ghost lo = week_start.day as int;
    let ghost hi = week_end.day as int;
    let mut points: u32 = 0;
    let mut k: usize = 0;
    while k < issues.len()
        invariant
            k <= issues.len(),
            all_wf(issues@),
            lo == week_start.day,
            hi == week_end.day,
            points == points_closed_in(issues@.take(k as int), *sizing, lo, hi),
        decreases issues.len() - k,
    {
        let issue = &issues[k];
        proof {
            assert(issues@.take(k + 1).drop_last() =~= issues@.take(k as int));
            assert(issues@[k as int].wf());
        }
        let closed_here = match &issue.closed_at {
            Some(t) => {
                let d = t.date();
                d.day >= week_start.day && d.day <= week_end.day
            },
            None => false,
        };
        if closed_here {
            match points.checked_add(issue_points(issue, sizing)) {
                Some(p) => {
                    points = p;
                },
                None => {
                    proof {
                        lemma_points_prefix(issues@, *sizing, lo, hi, k + 1);
                    }
                    return None;
                },
            }
        }
        k = k + 1;
    }
    proof {
        assert(issues@.take(k as int) =~= issues@);
    }
    Some(calculate_ticket_metrics(issues, week_start, week_end, sizing))
}

/// Number of open issues, as the `u32` it wraps to.
pub fn count_open(issues: &Vec<Issue>) -> (r: u32)
    ensures
        r == count_issues(issues@, |i: Issue| is_open_spec(i)) as u32,
{
    let ghost p = |i: Issue| is_open_spec(i);
    let mut n: usize = 0;
    let mut k: usize = 0;
    while k < issues.len()
        invariant
            k <= issues.len(),
            p == (|i: Issue| is_open_spec(i)),
            n == count_issues(issues@.take(k as int), p),
            n <= k,
        decreases issues.len() - k,
    {
        proof {
            assert(issues@.take(k + 1).drop_last() =~= issues@.take(k as int));
        }
        if issues[k].is_open() {
            n = n + 1;
        }
        k = k + 1;
    }
    proof {
        assert(issues@.take(k as int) =~= issues@);
    }
    #[verifier::truncate] (n as u32)
}

// ---------------------------------------------------------------------------
// Rolling velocity
// ---------------------------------------------------------------------------

/// Points closed in the week (seven days) ending `offset` weeks before `end`.
pub open spec fn week_points(s: Seq<Issue>, sizing: Sizing, end: int, offset: int) -> nat {
    points_closed_in(s, sizing, end - 7 * offset - 6, end - 7 * offset)
}

/// Over the `n` weeks ending at `end`, `end - 7`, ...: the total of the weekly
/// points and the number of weeks with any points.
pub open spec fn rolling_totals(s: Seq<Issue>, sizing: Sizing, end: int, n: nat) -> (nat, nat)
    decreases n,
{
    if n == 0 {
        (0, 0)
    } else {
        let prev = rolling_totals(s, sizing, end, (n - 1) as nat);
        let p = week_points(s, sizing, end, n - 1);
        if p > 0 {
            (prev.0 + p, prev.1 + 1)
        } else {
            prev
        }
    }
}

/// Totals over fewer weeks are no larger; the week count is at most the weeks.
pub proof fn lemma_rolling_monotone(s: Seq<Issue>, sizing: Sizing, end: int, a: nat, b: nat)
    requires
        a <= b,
    ensures
        rolling_totals(s, sizing, end, a).0 <= rolling_totals(s, sizing, end, b).0,
        rolling_totals(s, sizing, end, a).1 <= a,
    decreases b,
{
    if a < b {
        lemma_rolling_monotone(s, sizing, end, a, (b - 1) as nat);
    } else if a > 0 {
        lemma_rolling_monotone(s, sizing, end, (a - 1) as nat, (a - 1) as nat);
    }
}

/// For the rolling velocity over `num_weeks` weeks ending at `end_date`: the
/// total points of the weeks with any points, and the number of such weeks.
/// The average is the first divided by the second (0 when no week has points).
pub fn rolling_velocity_parts(
    issues: &Vec<Issue>,
    end_date: Date,
    num_weeks: usize,
    sizing: &Sizing,
) -> (r: (u32, usize))
    requires
        all_wf(issues@),
        issues.len() <= u32::MAX,
        end_date.wf(),
        num_weeks > 0 ==> day_in_range(end_date.day - 7 * (num_weeks - 1) - 6),
        rolling_totals(issues@, *sizing, end_date.day as int, num_weeks as nat).0 <= u32::MAX,
    ensures
        r.0 == rolling_totals(issues@, *sizing, end_date.day as int, num_weeks as nat).0,
        r.1 == rolling_totals(issues@, *sizing, end_date.day as int, num_weeks as nat).1,
{
    let ghost end = end_date.day as int;
    let mut total: u32 = 0;
    let mut weeks: usize = 0;
    let mut offset: usize = 0;
    while offset < num_weeks
        invariant
            offset <= num_weeks,
            end == end_date.day,
            all_wf(issues@),
            issues.len() <= u32::MAX,
            end_date.wf(),
            num_weeks > 0 ==> day_in_range(end_date.day - 7 * (num_weeks - 1) - 6),
            rolling_totals(issues@, *sizing, end, num_weeks as nat).0 <= u32::MAX,
            total == rolling_totals(issues@, *sizing, end, offset as nat).0,
            weeks == rolling_totals(issues@, *sizing, end, offset as nat).1,
        decreases num_weeks - offset,
    {
        proof {
            lemma_rolling_monotone(issues@, *sizing, end, (offset + 1) as nat, num_weeks as nat);
            lemma_rolling_monotone(issues@, *sizing, end, offset as nat, offset as nat);
            let p = week_points(issues@, *sizing, end, offset as int);
            if p > 0 {
                assert(p <= rolling_totals(issues@, *sizing, end, (offset + 1) as nat).0);
            }
        }
        let back: i64 = 7 * (offset as i64);
        let week_end = end_date.add_days(-back);
        let week_start = week_end.add_days(-6);
        let (_, _, points) = calculate_ticket_metrics(issues, week_start, week_end, sizing);
        if points > 0 {
            total = total + points;
            weeks = weeks + 1;
        }
        offset = offset + 1;
    }
    (total, weeks)
}

/// The rolling velocity parts as `rolling_velocity_parts` gives them, or
/// `None` when the total points do not fit in a `u32`.
pub fn rolling_velocity_checked(
    issues: &Vec<Issue>,
    end_date: Date,
    num_weeks: usize,
    sizing: &Sizing,
) -> (r: Option<(u32, usize)>)
    requires
        all_wf(issues@),
        issues.len() <= u32::MAX,
        end_date.wf(),
        num_weeks > 0 ==> day_in_range(end_date.day - 7 * (num_weeks - 1) - 6),
    ensures
        r is None <==> rolling_totals(issues@, *sizing, end_date.day as int, num_weeks as nat).0
            > u32::MAX,
        r matches Some(p) ==> {
            &&& p.0 == rolling_totals(issues@, *sizing, end_date.day as int, num_weeks as nat).0
            &&& p.1 == rolling_totals(issues@, *sizing, end_date.day as int, num_weeks as nat).1
        },
{
    let ghost end = end_date.day as int;
    let mut total: u32 = 0;
    let mut offset: usize = 0;
    while offset < num_weeks
        invariant
            offset <= num_weeks,
            end == end_date.day,
            all_wf(issues@),
            issues.len() <= u32::MAX,
            end_date.wf(),
            num_weeks > 0 ==> day_in_range(end_date.day - 7 * (num_weeks - 1) - 6),
            total == rolling_totals(issues@, *sizing, end, offset as nat).0,
        decreases num_weeks - offset,
    {
        let back: i64 = 7 * (offset as i64);
        let week_end = end_date.add_days(-back);
        let week_start = week_end.add_days(-6);
        match ticket_metrics_checked(issues, week_start, week_end, sizing) {
            Some((_, _, points)) => {
                if points > 0 {
                    match total.checked_add(points) {
                        Some(t) => {
                            total = t;
                        },
                        None => {
                            proof {
                                lemma_rolling_monotone(
                                    issues@,
                                    *sizing,
                                    end,
                                    (offset + 1) as nat,
                                    num_weeks as nat,
                                );
                            }
                            return None;
                        },
                    }
                }
            },
            None => {
                proof {
                    lemma_rolling_monotone(
                        issues@,
                        *sizing,
                        end,
                        (offset + 1) as nat,
                        num_weeks as nat,
                    );
                }
                return None;
            },
        }
        offset = offset + 1;
    }
    Some(rolling_velocity_parts(issues, end_date, num_weeks, sizing))
}

// ---------------------------------------------------------------------------
// Blocked tickets
// ---------------------------------------------------------------------------

/// `i` is the first label whose name starts with `prefix`.
pub open spec fn is_first_prefixed(labels: Seq<Label>, prefix: Seq<char>, i: int) -> bool {
    &&& 0 <= i < labels.len()
    &&& text::starts_with(labels[i].name@, prefix)
    &&& forall|j: int| 0 <= j < i ==> !text::starts_with((#[trigger] labels[j]).name@, prefix)
}

/// Name of the first label starting with `prefix`, if any.
pub open spec fn first_prefixed_label(labels: Seq<Label>, prefix: Seq<char>) -> Option<Seq<char>> {
    if exists|i: int| is_first_prefixed(labels, prefix, i) {
        Some(labels[choose|i: int| is_first_prefixed(labels, prefix, i)].name@)
    } else {
        None
    }
}

/// An open issue with a label starting with "blocked".
pub open spec fn is_blocked(i: Issue) -> bool {
    is_open_spec(i) && has_label_prefix_spec(i.labels@, "blocked"@)
}

/// The blocked issues of `s`, in order.
pub open spec fn blocked_issues(s: Seq<Issue>) -> Seq<Issue> {
    s.filter(|i: Issue| is_blocked(i))
}

/// `org/repo` of the issue's repository, or `unknown/unknown`.
pub open spec fn repo_text(i: Issue) -> Seq<char> {
    match org_repo_spec(i.repository_url@) {
        Some(p) => p.0 + seq!['/'] + p.1,
        None => "unknown"@ + seq!['/'] + "unknown"@,
    }
}

/// What the issue is blocked on: its first label starting with "blocked",
/// or "Unknown".
pub open spec fn blocked_on_text(i: Issue) -> Seq<char> {
    match first_prefixed_label(i.labels@, "blocked"@) {
        Some(n) => n,
        None => "Unknown"@,
    }
}

/// `t` is the report entry for the blocked issue `i`.
pub open spec fn blocked_ticket_of(t: BlockedTicket, i: Issue) -> bool {
    &&& t.repo@ == repo_text(i)
    &&& t.number == i.number
    &&& t.title@ == i.title@
    &&& t.blocked_on@ == blocked_on_text(i)
}

/// Name of the first label starting with `prefix`, if any.
pub fn first_label_with_prefix<'a>(labels: &'a Vec<Label>, prefix: &str) -> (r: Option<&'a str>)
    ensures
        r is Some <==> first_prefixed_label(labels@, prefix@) is Some,
        r matches Some(n) ==> first_prefixed_label(labels@, prefix@) == Some(n@),
{
    let mut i: usize = 0;
    while i < labels.len()
        invariant
            i <= labels.len(),
            forall|j: int|
                0 <= j < i ==> !text::starts_with((#[trigger] labels@[j]).name@, prefix@),
        decreases labels.len() - i,
    {
        if text::str_starts_with(labels[i].name.as_str(), prefix) {
            proof {
                assert(is_first_prefixed(labels@, prefix@, i as int));
                let k = choose|k: int| is_first_prefixed(labels@, prefix@, k);
                if k < i {
                    assert(!text::starts_with(labels@[k].name@, prefix@));
                }
                if k > i {
                    assert(!text::starts_with(labels@[i as int].name@, prefix@));
                }
            }
            return Some(labels[i].name.as_str());
        }
        i = i + 1;
    }
    proof {
        if exists|k: int| is_first_prefixed(labels@, prefix@, k) {
            let k = choose|k: int| is_first_prefixed(labels@, prefix@, k);
            assert(!text::starts_with(labels@[k].name@, prefix@));
        }
    }
    None
}

/// The report entry for a blocked issue.
pub fn blocked_ticket(issue: &Issue) -> (r: BlockedTicket)
    ensures
        blocked_ticket_of(r, *issue),
{
    let repo = match issue.org_repo() {
        Some((org, repo)) => {
            let mut s = text::owned(org);
            text::push_char(&mut s, '/');
            text::push_str(&mut s, repo);
            assert(s@ =~= org@ + seq!['/'] + repo@);
            s
        },
        None => {
            let mut s = text::owned("unknown");
            text::push_char(&mut s, '/');
            text::push_str(&mut s, "unknown");
            assert(s@ =~= "unknown"@ + seq!['/'] + "unknown"@);
            s
        },
    };
    let blocked_on = match first_label_with_prefix(&issue.labels, "blocked") {
        Some(n) => text::owned(n),
        None => text::owned("Unknown"),
    };
    BlockedTicket { repo, number: issue.number, title: issue.title.clone(), blocked_on }
}

/// Open issues with a label starting with "blocked" (such as "blocked",
/// "blocked:external"), in order, as report entries.
pub fn find_blocked_tickets(issues: &Vec<Issue>) -> (r: Vec<BlockedTicket>)
    ensures
        r.len() == blocked_issues(issues@).len(),
        forall|j: int|
            0 <= j < r.len() ==> blocked_ticket_of(#[trigger] r@[j], blocked_issues(issues@)[j]),
{
    let mut out: Vec<BlockedTicket> = Vec::new();
    let mut k: usize = 0;
    while k < issues.len()
        invariant
            k <= issues.len(),
            out.len() == blocked_issues(issues@.take(k as int)).len(),
            forall|j: int|
                0 <= j < out.len() ==> blocked_ticket_of(
                    #[trigger] out@[j],
                    blocked_issues(issues@.take(k as int))[j],
                ),
        decreases issues.len() - k,
    {
        let issue = &issues[k];
        proof {
            assert(issues@.take(k + 1) =~= issues@.take(k as int).push(*issue));
            issues@.take(k as int).lemma_filter_push(*issue, |i: Issue| is_blocked(i));
        }
        if issue.is_open() && issue.has_label_prefix("blocked") {
            out.push(blocked_ticket(issue));
        }
        k = k + 1;
    }
    proof {
        assert(issues@.take(k as int) =~= issues@);
    }
    out
}

// ---------------------------------------------------------------------------
// Deliveries
// ---------------------------------------------------------------------------

/// The release was published on a UTC day in `lo..=hi`.
pub open spec fn released_in(r: Release, lo: int, hi: int) -> bool {
    match r.published_at {
        Some(p) => lo <= utc_day(p.secs as int) <= hi,
        None => false,
    }
}

/// The release's name if set, else its tag.
pub open spec fn release_display(r: Release) -> Seq<char> {
    match r.name {
        Some(n) => n@,
        None => r.tag_name@,
    }
}

/// The delivery repository's configured name, else its repository name.
pub open spec fn repo_display(d: DeliveryRepo) -> Seq<char> {
    match d.name {
        Some(n) => n@,
        None => d.repo@,
    }
}

/// `item` is the delivery entry for release `r` of repository `repo`.
pub open spec fn delivery_of(item: DeliveryItem, repo: DeliveryRepo, r: Release) -> bool {
    &&& item.id@ == r.tag_name@
    &&& item.name@ == repo_display(repo) + seq![' '] + release_display(r)
    &&& item.kind == DeliveryKind::Release
    &&& !item.was_blocked
}

/// The releases of `s` published in `lo..=hi`, in order.
pub open spec fn releases_in(s: Seq<Release>, lo: int, hi: int) -> Seq<Release> {
    s.filter(|r: Release| released_in(r, lo, hi))
}

/// Delivery entries for the releases of a delivery repository published in
/// `week_start..=week_end`, in order.
pub fn deliveries_from_releases(
    repo: &DeliveryRepo,
    releases: &Vec<Release>,
    week_start: Date,
    week_end: Date,
) -> (r: Vec<DeliveryItem>)
    requires
        forall|i: int| 0 <= i < releases.len() ==> (#[trigger] releases@[i]).wf(),
    ensures
        r.len() == releases_in(releases@, week_start.day as int, week_end.day as int).len(),
        forall|j: int|
            0 <= j < r.len() ==> delivery_of(
                #[trigger] r@[j],
                *repo,
                releases_in(releases@, week_start.day as int, week_end.day as int)[j],
            ),
{
    let ghost lo = week_start.day as int;
    let ghost hi = week_end.day as int;
    let mut out: Vec<DeliveryItem> = Vec::new();
    let mut k: usize = 0;
    while k < releases.len()
        invariant
            k <= releases.len(),
            lo == week_start.day,
            hi == week_end.day,
            forall|i: int| 0 <= i < releases.len() ==> (#[trigger] releases@[i]).wf(),
            out.len() == releases_in(releases@.take(k as int), lo, hi).len(),
            forall|j: int|
                0 <= j < out.len() ==> delivery_of(
                    #[trigger] out@[j],
                    *repo,
                    releases_in(releases@.take(k as int), lo, hi)[j],
                ),
        decreases releases.len() - k,
    {
        let rel = &releases[k];
        proof {
            assert(releases@.take(k + 1) =~= releases@.take(k as int).push(*rel));
            releases@.take(k as int).lemma_filter_push(*rel, |r: Release| released_in(r, lo, hi));
            assert(releases@[k as int].wf());
        }
        if rel.published_in_range(week_start, week_end) {
            let mut name = text::owned(repo.display_name());
            text::push_char(&mut name, ' ');
            text::push_str(&mut name, rel.display_name());
            proof {
                assert(name@ =~= repo_display(*repo) + seq![' '] + release_display(*rel));
            }
            out.push(
                DeliveryItem {
                    id: rel.tag_name.clone(),
                    name,
                    kind: DeliveryKind::Release,
                    was_blocked: false,
                },
            );
        }
        k = k + 1;
    }
    proof {
        assert(releases@.take(k as int) =~= releases@);
    }
    out
}

// ---------------------------------------------------------------------------
// Distractions
// ---------------------------------------------------------------------------

/// The issues of a distraction source: those with its label when it has one,
/// else all of them, in order.
pub open spec fn distraction_issues(s: Seq<Issue>, label: Option<String>) -> Seq<Issue> {
    match label {
        Some(l) => s.filter(|i: Issue| has_label_spec(i.labels@, l@)),
        None => s,
    }
}

/// Some issue of `s` is assigned to `login`.
pub open spec fn has_login(s: Seq<Issue>, login: Seq<char>) -> bool {
    exists|i: int, k: int|
        0 <= i < s.len() && 0 <= k < s[i].assignees.len() && (#[trigger] s[i].assignees@[k]).login@
            == login
}

/// Some string of `v` equals `login`.
pub open spec fn listed(v: Seq<String>, login: Seq<char>) -> bool {
    exists|j: int| 0 <= j < v.len() && (#[trigger] v[j])@ == login
}

/// `v` lists each login assigned to an issue of `s` exactly once.
pub open spec fn logins_of(v: Seq<String>, s: Seq<Issue>) -> bool {
    &&& forall|j: int| 0 <= j < v.len() ==> has_login(s, (#[trigger] v[j])@)
    &&& forall|i: int, k: int|
        0 <= i < s.len() && 0 <= k < s[i].assignees.len() ==> listed(
            v,
            (#[trigger] s[i].assignees@[k]).login@,
        )
    &&& forall|a: int, b: int| 0 <= a < b < v.len() ==> (#[trigger] v[a])@ != (#[trigger] v[b])@
}

/// Whether `v` holds a string equal to `s`.
fn contains_string(v: &Vec<String>, s: &str) -> (r: bool)
    ensures
        r == exists|j: int| 0 <= j < v.len() && (#[trigger] v@[j])@ == s@,
{
    let mut j: usize = 0;
    while j < v.len()
        invariant
            j <= v.len(),
            forall|a: int| 0 <= a < j ==> (#[trigger] v@[a])@ != s@,
        decreases v.len() - j,
    {
        if text::str_eq(v[j].as_str(), s) {
            return true;
        }
        j = j + 1;
    }
    false
}

/// Summary of a distraction source from its issues: the number of issues it
/// selects (by the source's label, if it has one; as the `u32` it wraps to),
/// possibly none, and everyone assigned to them, each once.
pub fn summarize_distraction(d: &Distraction, issues: &Vec<Issue>) -> (r: DistractionSummary)
    ensures
        r.name@ == d.name@,
        r.ticket_count == distraction_issues(issues@, d.label).len() as u32,
        r.estimated_hours_bits is None,
        logins_of(r.assignees@, distraction_issues(issues@, d.label)),
{
    let mut logins: Vec<String> = Vec::new();
    let mut n: usize = 0;
    let mut k: usize = 0;
    let ghost mut f: Seq<Issue> = Seq::empty();
    while k < issues.len()
        invariant
            k <= issues.len(),
            f == distraction_issues(issues@.take(k as int), d.label),
            n == f.len(),
            n <= k,
            logins_of(logins@, f),
        decreases issues.len() - k,
    {
        let issue = &issues[k];
        proof {
            assert(issues@.take(k + 1) =~= issues@.take(k as int).push(*issue));
            match &d.label {
                Some(l) => {
                    issues@.take(k as int).lemma_filter_push(
                        *issue,
                        |i: Issue| has_label_spec(i.labels@, l@),
                    );
                },
                None => {},
            }
        }
        let selected = match &d.label {
            Some(l) => issue.has_label(l.as_str()),
            None => true,
        };
        if selected {
            let ghost f0 = f;
            proof {
                f = f.push(*issue);
                assert forall|j: int| 0 <= j < logins@.len() implies has_login(
                    f,
                    (#[trigger] logins@[j])@,
                ) by {
                    let (i, m) = choose|i: int, m: int|
                        0 <= i < f0.len() && 0 <= m < f0[i].assignees.len() && (#[trigger] f0[
                            i
                        ].assignees@[m]).login@ == logins@[j]@;
                    assert(f[i] == f0[i]);
                    assert(f[i].assignees@[m].login@ == logins@[j]@);
                }
            }
            let mut m: usize = 0;
            while m < issue.assignees.len()
                invariant
                    m <= issue.assignees.len(),
                    f == f0.push(*issue),
                    f.len() >= 1,
                    forall|j: int| 0 <= j < logins@.len() ==> has_login(f, (#[trigger] logins@[j])@),
                    forall|i: int, q: int|
                        0 <= i < f0.len() && 0 <= q < f0[i].assignees.len() ==> listed(
                            logins@,
                            (#[trigger] f0[i].assignees@[q]).login@,
                        ),
                    forall|q: int|
                        0 <= q < m ==> listed(logins@, (#[trigger] issue.assignees@[q]).login@),
                    forall|a: int, b: int|
                        0 <= a < b < logins@.len() ==> (#[trigger] logins@[a])@ != (
                        #[trigger] logins@[b])@,
                decreases issue.assignees.len() - m,
            {
                let login = issue.assignees[m].login.as_str();
                if !contains_string(&logins, login) {
                    let ghost old_logins = logins@;
                    logins.push(text::owned(login));
                    proof {
                        let last = f.len() - 1;
                        assert(f[last] == *issue);
                        assert(f[last].assignees@[m as int].login@ == login@);
                        assert(has_login(f, logins@[logins@.len() - 1]@));
                        assert forall|j: int| 0 <= j < logins@.len() implies has_login(
                            f,
                            (#[trigger] logins@[j])@,
                        ) by {
                            if j < old_logins.len() {
                                assert(logins@[j] == old_logins[j]);
                            }
                        }
                        assert forall|i: int, q: int|
                            0 <= i < f0.len() && 0 <= q < f0[i].assignees.len() implies listed(
                            logins@,
                            (#[trigger] f0[i].assignees@[q]).login@,
                        ) by {
                            assert(listed(old_logins, f0[i].assignees@[q].login@));
                            let j = choose|j: int|
                                0 <= j < old_logins.len() && (#[trigger] old_logins[j])@ == f0[
                                    i
                                ].assignees@[q].login@;
                            assert(logins@[j] == old_logins[j]);
                        }
                        assert forall|q: int| 0 <= q < m + 1 implies listed(
                            logins@,
                            (#[trigger] issue.assignees@[q]).login@,
                        ) by {
                            if q < m {
                                assert(listed(old_logins, issue.assignees@[q].login@));
                                let j = choose|j: int|
                                    0 <= j < old_logins.len() && (#[trigger] old_logins[j])@
                                        == issue.assignees@[q].login@;
                                assert(logins@[j] == old_logins[j]);
                            } else {
                                assert(logins@[logins@.len() - 1]@ == issue.assignees@[q].login@);
                            }
                        }
                    }
                }
                m = m + 1;
            }
            proof {
                assert forall|i: int, q: int|
                    0 <= i < f.len() && 0 <= q < f[i].assignees.len() implies listed(
                    logins@,
                    (#[trigger] f[i].assignees@[q]).login@,
                ) by {
                    if i < f0.len() {
                        assert(f[i] == f0[i]);
                        assert(f0[i].assignees@[q] == f[i].assignees@[q]);
                    } else {
                        assert(f[i] == *issue);
                        assert(issue.assignees@[q] == f[i].assignees@[q]);
                    }
                }
            }
            n = n + 1;
        }
        k = k + 1;
    }
    proof {
        assert(issues@.take(k as int) =~= issues@);
    }
    DistractionSummary {
        name: d.name.clone(),
        ticket_count: #[verifier::truncate] (n as u32),
        estimated_hours_bits: None,
        assignees: logins,
    }
}

/// Summaries of all distraction sources, one per source in order, from the
/// issues fetched for each.
pub fn summarize_distractions(ds: &Vec<Distraction>, issues: &Vec<Vec<Issue>>) -> (r: Vec<
    DistractionSummary,
>)
    requires
        issues.len() == ds.len(),
    ensures
        r.len() == ds.len(),
        forall|j: int|
            0 <= j < r.len() ==> {
                &&& (#[trigger] r@[j]).name@ == ds@[j].name@
                &&& r@[j].ticket_count == distraction_issues(issues@[j]@, ds@[j].label).len() as u32
                &&& r@[j].estimated_hours_bits is None
                &&& logins_of(r@[j].assignees@, distraction_issues(issues@[j]@, ds@[j].label))
            },
{
    let mut out: Vec<DistractionSummary> = Vec::new();
    let mut k: usize = 0;
    while k < ds.len()
        invariant
            k <= ds.len() == issues.len(),
            out.len() == k,
            forall|j: int|
                0 <= j < k ==> {
                    &&& (#[trigger] out@[j]).name@ == ds@[j].name@
                    &&& out@[j].ticket_count == distraction_issues(
                        issues@[j]@,
                        ds@[j].label,
                    ).len() as u32
                    &&& out@[j].estimated_hours_bits is None
                    &&& logins_of(out@[j].assignees@, distraction_issues(issues@[j]@, ds@[j].label))
                },
        decreases ds.len() - k,
    {
        out.push(summarize_distraction(&ds[k], &issues[k]));
        k = k + 1;
    }
    out
}

// ---------------------------------------------------------------------------
// External dependencies
// ---------------------------------------------------------------------------

/// Whether a tracking issue shows the release candidate and the final
/// version received: an `rc-received` label (or one starting with it) marks
/// the candidate; a `final-received` label (or one starting with it), or a
/// closed issue, marks the final version, which implies the candidate.
pub open spec fn tracking_flags_spec(i: Issue) -> (bool, bool) {
    let rc = has_label_spec(i.labels@, "rc-received"@) || has_label_prefix_spec(
        i.labels@,
        "rc-received"@,
    );
    let fin = has_label_spec(i.labels@, "final-received"@) || has_label_prefix_spec(
        i.labels@,
        "final-received"@,
    ) || is_closed_spec(i);
    (rc || fin, fin)
}

/// Release candidate and final version received, as the tracking issue shows.
pub fn tracking_flags(issue: &Issue) -> (r: (bool, bool))
    ensures
        r == tracking_flags_spec(*issue),
{
    let rc = issue.has_label("rc-received") || issue.has_label_prefix("rc-received");
    let fin = issue.has_label("final-received") || issue.has_label_prefix("final-received")
        || issue.is_closed();
    (rc || fin, fin)
}

/// The report's status kind for a configured dependency status.
pub open spec fn kind_of(s: crate::schema::dependencies::DependencyStatus) -> DependencyStatusKind {
    match s {
        crate::schema::dependencies::DependencyStatus::Pending => DependencyStatusKind::Pending,
        crate::schema::dependencies::DependencyStatus::RcOverdue => DependencyStatusKind::RcOverdue,
        crate::schema::dependencies::DependencyStatus::RcReceived => DependencyStatusKind::RcReceived,
        crate::schema::dependencies::DependencyStatus::FinalOverdue => DependencyStatusKind::FinalOverdue,
        crate::schema::dependencies::DependencyStatus::Complete => DependencyStatusKind::Complete,
    }
}

/// The report entry for a dependency, given what has been received.
pub fn dependency_entry(
    dep: &ExternalDependency,
    as_of: Date,
    rc_received: bool,
    final_received: bool,
) -> (r: crate::report::data::DependencyStatus)
    ensures
        r.id@ == dep.id@,
        r.name@ == dep.name@,
        r.owner@ == dep.owner@,
        r.rc_due == dep.rc_due,
        r.final_due == dep.final_due,
        r.rc_received == rc_received,
        r.final_received == final_received,
        r.status == kind_of(status_spec(*dep, as_of, rc_received, final_received)),
{
    let status = match dep.status(as_of, rc_received, final_received) {
        crate::schema::dependencies::DependencyStatus::Pending => DependencyStatusKind::Pending,
        crate::schema::dependencies::DependencyStatus::RcOverdue => DependencyStatusKind::RcOverdue,
        crate::schema::dependencies::DependencyStatus::RcReceived => DependencyStatusKind::RcReceived,
        crate::schema::dependencies::DependencyStatus::FinalOverdue => DependencyStatusKind::FinalOverdue,
        crate::schema::dependencies::DependencyStatus::Complete => DependencyStatusKind::Complete,
    };
    crate::report::data::DependencyStatus {
        id: dep.id.clone(),
        name: dep.name.clone(),
        owner: dep.owner.clone(),
        rc_due: dep.rc_due,
        final_due: dep.final_due,
        rc_received,
        final_received,
        status,
    }
}

// ---------------------------------------------------------------------------
// Documents
// ---------------------------------------------------------------------------

/// The issues tracking a document: those with its status label, in order;
/// none when it has no status label.
pub open spec fn doc_issues(s: Seq<Issue>, label: Option<String>) -> Seq<Issue> {
    match label {
        Some(l) => s.filter(|i: Issue| has_label_spec(i.labels@, l@)),
        None => Seq::empty(),
    }
}

/// Every issue of `s` is closed.
pub open spec fn all_closed(s: Seq<Issue>) -> bool {
    forall|i: int| 0 <= i < s.len() ==> is_closed_spec(#[trigger] s[i])
}

/// Some issue of `s` is open.
pub open spec fn any_open(s: Seq<Issue>) -> bool {
    exists|i: int| 0 <= i < s.len() && is_open_spec(#[trigger] s[i])
}

/// The latest closing instant among the issues of `s`, if any was closed.
pub open spec fn latest_close(s: Seq<Issue>) -> Option<Timestamp>
    decreases s.len(),
{
    if s.len() == 0 {
        None
    } else {
        let prev = latest_close(s.drop_last());
        match s.last().closed_at {
            None => prev,
            Some(t) => match prev {
                None => Some(t),
                Some(p) => if ts_le(t, p) {
                    Some(p)
                } else {
                    Some(t)
                },
            },
        }
    }
}

/// Status and completion date of a document on `as_of`: with no tracking
/// issue, overdue or not started; when all are closed, complete on the UTC
/// date of the latest closing; when one is open, in progress; otherwise
/// overdue or not started.
pub open spec fn doc_status_spec(doc: Document, s: Seq<Issue>, as_of: Date) -> (
    DocumentStatusKind,
    Option<Date>,
) {
    let d = doc_issues(s, doc.status_label);
    let idle = if as_of.day > doc.due_date.day {
        DocumentStatusKind::Overdue
    } else {
        DocumentStatusKind::NotStarted
    };
    if d.len() == 0 {
        (idle, None)
    } else if all_closed(d) {
        (
            DocumentStatusKind::Complete,
            match latest_close(d) {
                Some(t) => Some(Date { day: utc_day(t.secs as int) as i32 }),
                None => None,
            },
        )
    } else if any_open(d) {
        (DocumentStatusKind::InProgress, None)
    } else {
        (idle, None)
    }
}

/// `r` is the report entry for document `doc` given issues `s` on `as_of`.
pub open spec fn document_status_of(r: DocumentStatus, doc: Document, s: Seq<Issue>, as_of: Date) -> bool {
    &&& r.id@ == doc.id@
    &&& r.name@ == doc.name@
    &&& r.due_date == doc.due_date
    &&& (r.status, r.completed_date) == doc_status_spec(doc, s, as_of)
    &&& r.note is None
}

/// The latest closing instant is that of some issue.
proof fn lemma_latest_close_wf(s: Seq<Issue>)
    requires
        all_wf(s),
    ensures
        latest_close(s) matches Some(t) ==> t.wf(),
    decreases s.len(),
{
    if s.len() > 0 {
        lemma_latest_close_wf(s.drop_last());
        assert(s[s.len() - 1].wf());
    }
}

/// The report entry for a document, from the issues carrying its status label.
pub fn document_status(doc: &Document, issues: &Vec<Issue>, as_of: Date) -> (r: DocumentStatus)
    requires
        all_wf(issues@),
    ensures
        document_status_of(r, *doc, issues@, as_of),
{
    let ghost mut f: Seq<Issue> = Seq::empty();
    let mut found = false;
    let mut every_closed = true;
    let mut some_open = false;
    let mut latest: Option<Timestamp> = None;
    if let Some(label) = &doc.status_label {
        let mut k: usize = 0;
        while k < issues.len()
            invariant
                k <= issues.len(),
                all_wf(issues@),
                f == issues@.take(k as int).filter(|i: Issue| has_label_spec(i.labels@, label@)),
                found == (f.len() > 0),
                every_closed == all_closed(f),
                some_open == any_open(f),
                latest == latest_close(f),
                all_wf(f),
            decreases issues.len() - k,
        {
            let issue = &issues[k];
            proof {
                assert(issues@.take(k + 1) =~= issues@.take(k as int).push(*issue));
                issues@.take(k as int).lemma_filter_push(
                    *issue,
                    |i: Issue| has_label_spec(i.labels@, label@),
                );
            }
            if issue.has_label(label.as_str()) {
                let ghost f0 = f;
                proof {
                    f = f.push(*issue);
                    assert(f.drop_last() =~= f0);
                    assert(f[f.len() - 1] == *issue);
                    assert(issues@[k as int].wf());
                    assert forall|i: int| 0 <= i < f.len() implies (#[trigger] f[i]).wf() by {
                        if i < f0.len() {
                            assert(f[i] == f0[i]);
                        }
                    }
                    if all_closed(f0) && is_closed_spec(*issue) {
                        assert forall|i: int| 0 <= i < f.len() implies is_closed_spec(
                            #[trigger] f[i],
                        ) by {
                            if i < f0.len() {
                                assert(f[i] == f0[i]);
                            }
                        }
                    }
                    if !all_closed(f0) {
                        let i = choose|i: int| 0 <= i < f0.len() && !is_closed_spec(#[trigger] f0[i]);
                        assert(f[i] == f0[i]);
                    }
                    if any_open(f0) {
                        let i = choose|i: int| 0 <= i < f0.len() && is_open_spec(#[trigger] f0[i]);
                        assert(f[i] == f0[i]);
                    }
                    if any_open(f) && !is_open_spec(*issue) {
                        let i = choose|i: int| 0 <= i < f.len() && is_open_spec(#[trigger] f[i]);
                        assert(f[i] == f0[i]);
                    }
                }
                found = true;
                every_closed = every_closed && issue.is_closed();
                some_open = some_open || issue.is_open();
                match &issue.closed_at {
                    Some(t) => {
                        latest = match latest {
                            None => Some(*t),
                            Some(p) => if t.is_at_or_before(&p) {
                                Some(p)
                            } else {
                                Some(*t)
                            },
                        };
                    },
                    None => {},
                }
            }
            k = k + 1;
        }
        proof {
            assert(issues@.take(k as int) =~= issues@);
        }
    }
    proof {
        assert(f == doc_issues(issues@, doc.status_label));
        lemma_latest_close_wf(f);
    }
    let overdue = doc.is_overdue(as_of);
    let idle = if overdue {
        DocumentStatusKind::Overdue
    } else {
        DocumentStatusKind::NotStarted
    };
    let (status, completed_date) = if !found {
        (idle, None)
    } else if every_closed {
        let date = match latest {
            Some(t) => Some(t.date()),
            None => None,
        };
        (DocumentStatusKind::Complete, date)
    } else if some_open {
        (DocumentStatusKind::InProgress, None)
    } else {
        (idle, None)
    };
    DocumentStatus {
        id: doc.id.clone(),
        name: doc.name.clone(),
        due_date: doc.due_date,
        status,
        completed_date,
        note: None,
    }
}

/// Report entries for the documents, in order.
pub fn calculate_document_status(
    all_issues: &Vec<Issue>,
    documents: &Vec<Document>,
    as_of: Date,
) -> (r: Vec<DocumentStatus>)
    requires
        all_wf(all_issues@),
    ensures
        r.len() == documents.len(),
        forall|j: int|
            0 <= j < r.len() ==> document_status_of(
                #[trigger] r@[j],
                documents@[j],
                all_issues@,
                as_of,
            ),
{
    let mut out: Vec<DocumentStatus> = Vec::new();
    let mut k: usize = 0;
    while k < documents.len()
        invariant
            k <= documents.len(),
            all_wf(all_issues@),
            out.len() == k,
            forall|j: int|
                0 <= j < k ==> document_status_of(
                    #[trigger] out@[j],
                    documents@[j],
                    all_issues@,
                    as_of,
                ),
        decreases documents.len() - k,
    {
        out.push(document_status(&documents[k], all_issues, as_of));
        k = k + 1;
    }
    out
}

// ---------------------------------------------------------------------------
// CSCIs
// ---------------------------------------------------------------------------

/// The issue's repository (the last two segments of its repository URL, as
/// `org/repo`) is one of the CSCI's repositories.
pub open spec fn in_csci(i: Issue, c: Csci) -> bool {
    match org_repo_spec(i.repository_url@) {
        Some(p) => exists|k: int|
            0 <= k < c.repos.len() && (#[trigger] c.repos@[k])@ == p.0 + seq!['/'] + p.1,
        None => false,
    }
}

/// Ticket counts of a CSCI.
#[derive(Debug, Clone, Copy, PartialEq, Eq, Structural)]
pub struct CsciCounts {
    /// Tickets in the CSCI's repositories.
    pub total: u32,
    /// Tier 1 tickets: closed ones with the tier 1 label, or all closed ones
    /// when none has it.
    pub tier1: u32,
    /// Tier 2 tickets: closed ones with the tier 2 label.
    pub tier2: u32,
}

/// A closed ticket of the CSCI with label `l`.
pub open spec fn closed_with(i: Issue, c: Csci, l: Seq<char>) -> bool {
    in_csci(i, c) && is_closed_spec(i) && has_label_spec(i.labels@, l)
}

/// The counts of CSCI `c` among issues `s`; each count is the `u32` it wraps to.
pub open spec fn csci_counts_spec(c: Csci, s: Seq<Issue>) -> CsciCounts {
    let labeled = count_issues(s, |i: Issue| closed_with(i, c, c.tier1_label@)) as u32;
    let closed = count_issues(s, |i: Issue| in_csci(i, c) && is_closed_spec(i)) as u32;
    CsciCounts {
        total: count_issues(s, |i: Issue| in_csci(i, c)) as u32,
        tier1: if labeled > 0 {
            labeled
        } else {
            closed
        },
        tier2: count_issues(s, |i: Issue| closed_with(i, c, c.tier2_label@)) as u32,
    }
}

/// Ticket counts of a CSCI among the issues.
pub fn csci_counts(csci: &Csci, issues: &Vec<Issue>) -> (r: CsciCounts)
    ensures
        r == csci_counts_spec(*csci, issues@),
{
    let ghost c = *csci;
    let mut total: usize = 0;
    let mut labeled1: usize = 0;
    let mut labeled2: usize = 0;
    let mut closed: usize = 0;
    let mut k: usize = 0;
    while k < issues.len()
        invariant
            k <= issues.len(),
            c == *csci,
            total == count_issues(issues@.take(k as int), |i: Issue| in_csci(i, c)),
            labeled1 == count_issues(
                issues@.take(k as int),
                |i: Issue| closed_with(i, c, c.tier1_label@),
            ),
            labeled2 == count_issues(
                issues@.take(k as int),
                |i: Issue| closed_with(i, c, c.tier2_label@),
            ),
            closed == count_issues(
                issues@.take(k as int),
                |i: Issue| in_csci(i, c) && is_closed_spec(i),
            ),
            total <= k,
            labeled1 <= k,
            labeled2 <= k,
            closed <= k,
        decreases issues.len() - k,
    {
        let issue = &issues[k];
        proof {
            assert(issues@.take(k + 1).drop_last() =~= issues@.take(k as int));
        }
        let member = match issue.org_repo() {
            Some((org, repo)) => {
                proof {
                    let p = org_repo_spec(issue.repository_url@).unwrap();
                    assert(p.0 == org@ && p.1 == repo@);
                }
                csci.contains_repo(org, repo)
            },
            None => false,
        };
        if member {
            total = total + 1;
            if issue.is_closed() {
                closed = closed + 1;
                if issue.has_label(csci.tier1_label.as_str()) {
                    labeled1 = labeled1 + 1;
                }
                if issue.has_label(csci.tier2_label.as_str()) {
                    labeled2 = labeled2 + 1;
                }
            }
        }
        k = k + 1;
    }
    proof {
        assert(issues@.take(k as int) =~= issues@);
    }
    let labeled = #[verifier::truncate] (labeled1 as u32);
    let tier1 = if labeled > 0 {
        labeled
    } else {
        #[verifier::truncate] (closed as u32)
    };
    CsciCounts {
        total: #[verifier::truncate] (total as u32),
        tier1,
        tier2: #[verifier::truncate] (labeled2 as u32),
    }
}

/// Projection of a CSCI: complete when its adjusted completion reaches 100%;
/// behind when its target date has passed; at risk when under 50% with fewer
/// than 30 days left; otherwise on track.
pub open spec fn projection_spec(complete: bool, below_half: bool, days_until: int) -> Projection {
    if complete {
        Projection::Complete
    } else if days_until < 0 {
        Projection::Behind
    } else if below_half && days_until < 30 {
        Projection::AtRisk
    } else {
        Projection::OnTrack
    }
}

/// Projection of a CSCI from whether its adjusted completion reaches 100%
/// (`complete`), whether it is under 50% (`below_half`), and the days left.
pub fn projection_for(complete: bool, below_half: bool, days_until: i64) -> (r: Projection)
    ensures
        r == projection_spec(complete, below_half, days_until as int),
{
    if complete {
        Projection::Complete
    } else if days_until < 0 {
        Projection::Behind
    } else if below_half && days_until < 30 {
        Projection::AtRisk
    } else {
        Projection::OnTrack
    }
}

/// The report entry for a CSCI on `as_of`, from its counts and its adjusted
/// completion (a binary64 bit pattern, with whether it reaches 100% and
/// whether it is under 50%).
pub fn csci_status(
    csci: &Csci,
    counts: CsciCounts,
    as_of: Date,
    completion_percent_bits: u64,
    complete: bool,
    below_half: bool,
) -> (r: CsciStatus)
    ensures
        r.id@ == csci.id@,
        r.name@ == csci.name@,
        r.target_date == csci.target_date,
        r.days_until == csci.target_date.day - as_of.day,
        r.total_tickets == counts.total,
        r.tier1_complete == counts.tier1,
        r.tier2_complete == counts.tier2,
        r.completion_percent_bits == completion_percent_bits,
        r.projection == projection_spec(complete, below_half, csci.target_date.day - as_of.day),
        r.buffer_days == 0,
{
    let days_until = csci.days_until_target(as_of);
    CsciStatus {
        id: csci.id.clone(),
        name: csci.name.clone(),
        target_date: csci.target_date,
        days_until,
        total_tickets: counts.total,
        tier1_complete: counts.tier1,
        tier2_complete: counts.tier2,
        completion_percent_bits,
        projection: projection_for(complete, below_half, days_until),
        buffer_days: 0,
    }
}

// ---------------------------------------------------------------------------
// Leave
// ---------------------------------------------------------------------------

/// `i` is the first member with GitHub username `g`.
pub open spec fn is_first_member(members: Seq<TeamMember>, g: Seq<char>, i: int) -> bool {
    &&& 0 <= i < members.len()
    &&& members[i].github@ == g
    &&& forall|j: int| 0 <= j < i ==> (#[trigger] members[j]).github@ != g
}

/// The first member with GitHub username `g`, if any.
pub open spec fn first_member(members: Seq<TeamMember>, g: Seq<char>) -> Option<TeamMember> {
    if exists|i: int| is_first_member(members, g, i) {
        Some(members[choose|i: int| is_first_member(members, g, i)])
    } else {
        None
    }
}

/// The text of an optional string.
pub open spec fn opt_text(o: Option<String>) -> Option<Seq<char>> {
    match o {
        Some(s) => Some(s@),
        None => None,
    }
}

/// Name and reason of each leave period of `leave` whose member is in
/// `members` (periods of unknown members are skipped), in order.
pub open spec fn leave_rows(members: Seq<TeamMember>, leave: Seq<Leave>) -> Seq<
    (Seq<char>, Option<Seq<char>>),
>
    decreases leave.len(),
{
    if leave.len() == 0 {
        Seq::empty()
    } else {
        let rest = leave_rows(members, leave.drop_last());
        match first_member(members, leave.last().github@) {
            Some(m) => rest.push((m.name@, opt_text(leave.last().reason))),
            None => rest,
        }
    }
}

/// Leave entries for the leave periods overlapping `week_start..=week_end`
/// whose member is on the team, in order, each at 0% capacity.
pub fn leave_entries(team: &Team, week_start: Date, week_end: Date) -> (r: Vec<LeaveEntry>)
    ensures
        r.len() == leave_rows(
            team.members@,
            leave_in_range_spec(team.leave@, week_start, week_end),
        ).len(),
        forall|j: int|
            0 <= j < r.len() ==> {
                &&& ((#[trigger] r@[j]).name@, opt_text(r@[j].reason)) == leave_rows(
                    team.members@,
                    leave_in_range_spec(team.leave@, week_start, week_end),
                )[j]
                &&& r@[j].capacity_percent == 0
            },
{
    let ls = team.leave_in_range(week_start, week_end);
    let ghost all = leave_in_range_spec(team.leave@, week_start, week_end);
    let mut out: Vec<LeaveEntry> = Vec::new();
    let mut k: usize = 0;
    while k < ls.len()
        invariant
            k <= ls.len() == all.len(),
            forall|i: int| 0 <= i < ls.len() ==> *(#[trigger] ls@[i]) == all[i],
            out.len() == leave_rows(team.members@, all.take(k as int)).len(),
            forall|j: int|
                0 <= j < out.len() ==> {
                    &&& ((#[trigger] out@[j]).name@, opt_text(out@[j].reason)) == leave_rows(
                        team.members@,
                        all.take(k as int),
                    )[j]
                    &&& out@[j].capacity_percent == 0
                },
        decreases ls.len() - k,
    {
        let l = ls[k];
        proof {
            assert(all.take(k + 1).drop_last() =~= all.take(k as int));
            assert(*l == all[k as int]);
        }
        match team.member_by_github(l.github.as_str()) {
            Some(m) => {
                proof {
                    let g = l.github@;
                    let i = choose|i: int|
                        0 <= i < team.members.len() && team.members@[i] == *m && m.github@ == g
                            && forall|j: int|
                            0 <= j < i ==> (#[trigger] team.members@[j]).github@ != g;
                    assert(is_first_member(team.members@, g, i));
                    let c = choose|c: int| is_first_member(team.members@, g, c);
                    if c < i {
                        assert(team.members@[c].github@ == g);
                    }
                    if c > i {
                        assert(team.members@[i].github@ != g);
                    }
                    assert(first_member(team.members@, g) == Some(*m));
                }
                let reason = match &l.reason {
                    Some(s) => Some(s.clone()),
                    None => None,
                };
                out.push(LeaveEntry { name: m.name.clone(), capacity_percent: 0, reason });
            },
            None => {
                proof {
                    let g = l.github@;
                    if exists|c: int| is_first_member(team.members@, g, c) {
                        let c = choose|c: int| is_first_member(team.members@, g, c);
                        assert(team.members@[c].github@ != g);
                    }
                }
            },
        }
        k = k + 1;
    }
    proof {
        assert(all.take(k as int) =~= all);
    }
    out
}

// ---------------------------------------------------------------------------
// Milestones, week boundaries, summaries
// ---------------------------------------------------------------------------

/// `r` is the report entry for milestone `m` seen from `as_of`.
pub open spec fn milestone_status_of(r: MilestoneStatus, m: Milestone, as_of: Date) -> bool {
    &&& r.id@ == m.id@
    &&& r.name@ == m.name@
    &&& r.date == m.date
    &&& r.days_until == m.date.day - as_of.day
}

/// Report entries for the milestones in the 90 days from `as_of`, by date.
pub fn milestone_statuses(deliverables: &Deliverables, as_of: Date) -> (r: Vec<MilestoneStatus>)
    requires
        day_in_range(as_of.day + 90),
    ensures
        exists|ms: Seq<Milestone>|
            {
                &&& stable_date_sort_of(
                    ms,
                    milestone_candidates(*deliverables, as_of.day as int, as_of.day + 90),
                )
                &&& ms.len() == r.len()
                &&& forall|j: int|
                    0 <= j < r.len() ==> milestone_status_of(#[trigger] r@[j], ms[j], as_of)
            },
{
    let ms = deliverables.upcoming_milestones(as_of, 90);
    let mut out: Vec<MilestoneStatus> = Vec::new();
    let mut k: usize = 0;
    while k < ms.len()
        invariant
            k <= ms.len(),
            out.len() == k,
            forall|j: int| 0 <= j < k ==> milestone_status_of(#[trigger] out@[j], ms@[j], as_of),
        decreases ms.len() - k,
    {
        let m = &ms[k];
        out.push(
            MilestoneStatus {
                id: m.id.clone(),
                name: m.name.clone(),
                date: m.date,
                days_until: m.days_until(as_of),
            },
        );
        k = k + 1;
    }
    out
}

/// The dates a weekly report looks at.
#[derive(Debug, Clone, Copy, PartialEq, Eq, Structural)]
pub struct ReportWindow {
    /// Monday of the reported week.
    pub week_start: Date,
    /// Sunday of the reported week.
    pub week_end: Date,
    /// Monday of the week before.
    pub prev_week_start: Date,
    /// Sunday of the week before.
    pub prev_week_end: Date,
    /// Start of the four weeks before the reported week (velocity history).
    pub historical_start: Date,
}

/// The report window of the week starting on `week_start`: that week, the
/// week before it, and the four weeks of history before it.
pub fn report_window(week_start: Date) -> (r: ReportWindow)
    requires
        day_in_range(week_start.day - 28),
        day_in_range(week_start.day + 6),
    ensures
        r.week_start == week_start,
        r.week_end.day == week_start.day + 6,
        r.prev_week_start.day == week_start.day - 7,
        r.prev_week_end.day == week_start.day - 1,
        r.historical_start.day == week_start.day - 28,
{
    let week_end = week_start.add_days(6);
    ReportWindow {
        week_start,
        week_end,
        prev_week_start: week_start.add_days(-7),
        prev_week_end: week_end.add_days(-7),
        historical_start: week_start.add_days(-28),
    }
}

/// Ticket statistics of the week; the net change is closed minus opened,
/// each read as `i32`.
pub fn ticket_summary(
    closed: u32,
    closed_prev: u32,
    opened: u32,
    points_delivered: u32,
    velocity_avg_bits: u64,
) -> (r: crate::report::data::TicketSummary)
    requires
        i32::MIN <= crate::report::data::wrap_i32(closed) - crate::report::data::wrap_i32(opened)
            <= i32::MAX,
    ensures
        r.closed == closed,
        r.closed_prev == closed_prev,
        r.opened == opened,
        r.net == crate::report::data::wrap_i32(closed) - crate::report::data::wrap_i32(opened),
        r.points_delivered == points_delivered,
        r.velocity_avg_bits == velocity_avg_bits,
{
    let c = closed as i32;
    let o = opened as i32;
    proof {
        assert(c == (if closed <= 0x7fff_ffff { closed as int } else { closed - 0x1_0000_0000 }))
            by (bit_vector)
            requires
                c == closed as i32,
        ;
        assert(o == (if opened <= 0x7fff_ffff { opened as int } else { opened - 0x1_0000_0000 }))
            by (bit_vector)
            requires
                o == opened as i32,
        ;
    }
    crate::report::data::TicketSummary {
        closed,
        closed_prev,
        opened,
        net: c - o,
        points_delivered,
        velocity_avg_bits,
    }
}

/// Backlog change of the week: it ends with the open issues and is
/// estimated to have started with those plus the ones closed this week.
pub fn backlog_change(open_issues: u32, closed: u32, opened: u32) -> (r:
    crate::report::data::BacklogChange)
    requires
        open_issues + closed <= u32::MAX,
    ensures
        r.start == open_issues + closed,
        r.end == open_issues,
        r.new_work == opened,
        r.new_work_note is None,
{
    crate::report::data::BacklogChange {
        start: open_issues + closed,
        end: open_issues,
        new_work: opened,
        new_work_note: None,
    }
}

// ---------------------------------------------------------------------------
// Laws
// ---------------------------------------------------------------------------

/// Counting a weaker property counts at least as many issues.
pub proof fn lemma_count_weaker(s: Seq<Issue>, p: spec_fn(Issue) -> bool, q: spec_fn(Issue) -> bool)
    requires
        forall|x: Issue| #[trigger] p(x) ==> q(x),
    ensures
        count_issues(s, p) <= count_issues(s, q),
    decreases s.len(),
{
    if s.len() > 0 {
        lemma_count_weaker(s.drop_last(), p, q);
    }
}

/// Counting issues counts at most all of them.
pub proof fn lemma_count_at_most_len(s: Seq<Issue>, p: spec_fn(Issue) -> bool)
    ensures
        count_issues(s, p) <= s.len(),
    decreases s.len(),
{
    if s.len() > 0 {
        lemma_count_at_most_len(s.drop_last(), p);
    }
}

/// A CSCI's tier 1 and tier 2 counts never exceed its ticket count (for
/// fewer than 2^32 issues, where no count wraps).
pub proof fn lemma_csci_tiers_within_total(c: Csci, s: Seq<Issue>)
    requires
        s.len() <= u32::MAX,
    ensures
        csci_counts_spec(c, s).tier1 <= csci_counts_spec(c, s).total,
        csci_counts_spec(c, s).tier2 <= csci_counts_spec(c, s).total,
{
    let all = |i: Issue| in_csci(i, c);
    let t1 = |i: Issue| closed_with(i, c, c.tier1_label@);
    let t2 = |i: Issue| closed_with(i, c, c.tier2_label@);
    let cl = |i: Issue| in_csci(i, c) && is_closed_spec(i);
    lemma_count_weaker(s, t1, all);
    lemma_count_weaker(s, t2, all);
    lemma_count_weaker(s, cl, all);
    lemma_count_at_most_len(s, all);
}

/// A tracking issue showing the final version also shows the release
/// candidate; a closed tracking issue shows both.
pub proof fn lemma_final_implies_candidate(i: Issue)
    ensures
        tracking_flags_spec(i).1 ==> tracking_flags_spec(i).0,
        is_closed_spec(i) ==> tracking_flags_spec(i) == (true, true),
{
}

/// A dependency whose tracking issue is closed is reported complete,
/// whatever the date.
pub proof fn lemma_closed_tracking_issue_completes(d: ExternalDependency, i: Issue, as_of: Date)
    requires
        is_closed_spec(i),
    ensures
        kind_of(
            status_spec(d, as_of, tracking_flags_spec(i).0, tracking_flags_spec(i).1),
        ) == DependencyStatusKind::Complete,
{
}

/// What a blocked issue is reported blocked on is one of its labels, and it
/// starts with "blocked".
pub proof fn lemma_blocked_on_is_blocked_label(i: Issue)
    requires
        is_blocked(i),
    ensures
        text::starts_with(blocked_on_text(i), "blocked"@),
        exists|k: int| 0 <= k < i.labels.len() && i.labels@[k].name@ == blocked_on_text(i),
{
    let p = "blocked"@;
    let l = i.labels@;
    let w = choose|k: int| 0 <= k < l.len() && text::starts_with((#[trigger] l[k]).name@, p);
    lemma_first_prefixed_exists(l, p, w);
    let f = choose|k: int| is_first_prefixed(l, p, k);
    assert(blocked_on_text(i) == l[f].name@);
}

/// When some label starts with `p`, a first such label exists.
proof fn lemma_first_prefixed_exists(l: Seq<Label>, p: Seq<char>, w: int)
    requires
        0 <= w < l.len(),
        text::starts_with(l[w].name@, p),
    ensures
        exists|k: int| is_first_prefixed(l, p, k),
    decreases w,
{
    if forall|j: int| 0 <= j < w ==> !text::starts_with((#[trigger] l[j]).name@, p) {
        assert(is_first_prefixed(l, p, w));
    } else {
        let j = choose|j: int| 0 <= j < w && text::starts_with((#[trigger] l[j]).name@, p);
        lemma_first_prefixed_exists(l, p, j);
    }
}

/// Counting over one more issue adds one exactly when it satisfies `p`.
proof fn lemma_count_push(s: Seq<Issue>, i: Issue, p: spec_fn(Issue) -> bool)
    ensures
        count_issues(s.push(i), p) == count_issues(s, p) + if p(i) {
            1nat
        } else {
            0nat
        },
{
    assert(s.push(i).drop_last() =~= s);
}

/// Opened and closed counts of a week, issue by issue: none of no issues,
/// and one more issue adds one to the opened count exactly when its creation
/// UTC date is in the week, whether or not it was also closed, and one to
/// the closed count exactly when it has a closing instant whose UTC date is
/// in the week, whenever it was created; its points are added exactly then.
pub proof fn lemma_week_counts_push(s: Seq<Issue>, i: Issue, lo: int, hi: int, sizing: Sizing)
    ensures
        points_closed_in(Seq::empty(), sizing, lo, hi) == 0,
        points_closed_in(s.push(i), sizing, lo, hi) == points_closed_in(s, sizing, lo, hi) + if i.closed_at matches Some(t) && lo <= utc_day(t.secs as int) <= hi {
            issue_points_spec(i, sizing)
        } else {
            0nat
        },
        count_issues(Seq::empty(), |x: Issue| created_in(x, lo, hi)) == 0,
        count_issues(Seq::empty(), |x: Issue| closed_in(x, lo, hi)) == 0,
        count_issues(s.push(i), |x: Issue| created_in(x, lo, hi)) == count_issues(
            s,
            |x: Issue| created_in(x, lo, hi),
        ) + if lo <= utc_day(i.created_at.secs as int) <= hi {
            1nat
        } else {
            0nat
        },
        count_issues(s.push(i), |x: Issue| closed_in(x, lo, hi)) == count_issues(
            s,
            |x: Issue| closed_in(x, lo, hi),
        ) + if i.closed_at matches Some(t) && lo <= utc_day(t.secs as int) <= hi {
            1nat
        } else {
            0nat
        },
{
    lemma_count_push(s, i, |x: Issue| created_in(x, lo, hi));
    lemma_count_push(s, i, |x: Issue| closed_in(x, lo, hi));
    assert(s.push(i).drop_last() =~= s);
}

/// A CSCI's counts, issue by issue (while no count wraps): none of no
/// issues; one more issue adds one to the total exactly when it belongs to
/// the CSCI's repositories, and one to Tier 2 exactly when it is also closed
/// and carries the Tier 2 label, whatever its other labels.
pub proof fn lemma_csci_counts_push(c: Csci, s: Seq<Issue>, i: Issue)
    requires
        s.len() < u32::MAX,
    ensures
        csci_counts_spec(c, Seq::empty()) == (CsciCounts { total: 0, tier1: 0, tier2: 0 }),
        csci_counts_spec(c, s.push(i)).total == csci_counts_spec(c, s).total + if in_csci(i, c) {
            1int
        } else {
            0int
        },
        csci_counts_spec(c, s.push(i)).tier2 == csci_counts_spec(c, s).tier2 + if in_csci(i, c)
            && is_closed_spec(i) && has_label_spec(i.labels@, c.tier2_label@) {
            1int
        } else {
            0int
        },
{
    let all = |x: Issue| in_csci(x, c);
    let t2 = |x: Issue| closed_with(x, c, c.tier2_label@);
    lemma_count_push(s, i, all);
    lemma_count_push(s, i, t2);
    lemma_count_at_most_len(s, all);
    lemma_count_at_most_len(s, t2);
}

/// Tier 1 counts the closed tickets of the CSCI carrying the Tier 1 label,
/// and when none does, all its closed tickets; Tier 2 and the total do not
/// depend on the Tier 1 label, nor Tier 1 and the total on the Tier 2 label.
pub proof fn lemma_csci_tier_labels(c: Csci, c2: Csci, s: Seq<Issue>)
    requires
        s.len() <= u32::MAX,
        c2.repos@ == c.repos@,
    ensures
        (forall|k: int| 0 <= k < s.len() ==> !closed_with(#[trigger] s[k], c, c.tier1_label@))
            ==> csci_counts_spec(c, s).tier1 == count_issues(
            s,
            |x: Issue| in_csci(x, c) && is_closed_spec(x),
        ),
        c2.tier2_label@ == c.tier2_label@ ==> csci_counts_spec(c2, s).tier2 == csci_counts_spec(
            c,
            s,
        ).tier2,
        c2.tier1_label@ == c.tier1_label@ ==> csci_counts_spec(c2, s).tier1 == csci_counts_spec(
            c,
            s,
        ).tier1,
        csci_counts_spec(c2, s).total == csci_counts_spec(c, s).total,
    decreases s.len(),
{
    let t1 = |x: Issue| closed_with(x, c, c.tier1_label@);
    let cl = |x: Issue| in_csci(x, c) && is_closed_spec(x);
    lemma_count_at_most_len(s, t1);
    lemma_count_at_most_len(s, cl);
    assert forall|x: Issue| in_csci(x, c2) == in_csci(x, c) by {
        assert(c2.repos@ =~= c.repos@);
    }
    lemma_count_same(s, c, c2);
    if forall|k: int| 0 <= k < s.len() ==> !closed_with(#[trigger] s[k], c, c.tier1_label@) {
        lemma_count_none(s, t1);
    }
}

/// Counting under two CSCIs with the same repositories and labels gives the
/// same counts, label by label.
proof fn lemma_count_same(s: Seq<Issue>, c: Csci, c2: Csci)
    requires
        forall|x: Issue| in_csci(x, c2) == in_csci(x, c),
    ensures
        count_issues(s, |x: Issue| in_csci(x, c2)) == count_issues(s, |x: Issue| in_csci(x, c)),
        count_issues(s, |x: Issue| in_csci(x, c2) && is_closed_spec(x)) == count_issues(
            s,
            |x: Issue| in_csci(x, c) && is_closed_spec(x),
        ),
        c2.tier1_label@ == c.tier1_label@ ==> count_issues(
            s,
            |x: Issue| closed_with(x, c2, c2.tier1_label@),
        ) == count_issues(s, |x: Issue| closed_with(x, c, c.tier1_label@)),
        c2.tier2_label@ == c.tier2_label@ ==> count_issues(
            s,
            |x: Issue| closed_with(x, c2, c2.tier2_label@),
        ) == count_issues(s, |x: Issue| closed_with(x, c, c.tier2_label@)),
    decreases s.len(),
{
    if s.len() > 0 {
        lemma_count_same(s.drop_last(), c, c2);
    }
}

/// Counting a property no issue has gives 0.
proof fn lemma_count_none(s: Seq<Issue>, p: spec_fn(Issue) -> bool)
    requires
        forall|k: int| 0 <= k < s.len() ==> !p(#[trigger] s[k]),
    ensures
        count_issues(s, p) == 0,
    decreases s.len(),
{
    if s.len() > 0 {
        lemma_count_none(s.drop_last(), p);
    }
}

/// The issue carries the document's status label.
pub open spec fn tracks_document(i: Issue, doc: Document) -> bool {
    match doc.status_label {
        Some(l) => has_label_spec(i.labels@, l@),
        None => false,
    }
}

/// The latest closing instant is one of the issues' closing instants, no
/// closing instant is later, and there is one exactly when some issue has a
/// closing instant.
proof fn lemma_latest_close_is_latest(s: Seq<Issue>)
    ensures
        latest_close(s) is Some <==> exists|k: int| 0 <= k < s.len() && (#[trigger] s[k]).closed_at is Some,
        latest_close(s) matches Some(t) ==> {
            &&& exists|k: int| 0 <= k < s.len() && (#[trigger] s[k]).closed_at == Some(t)
            &&& forall|j: int|
                0 <= j < s.len() ==> match (#[trigger] s[j]).closed_at {
                    Some(u) => ts_le(u, t),
                    None => true,
                }
        },
    decreases s.len(),
{
    if s.len() > 0 {
        let p = s.drop_last();
        lemma_latest_close_is_latest(p);
        let n = s.len() - 1;
        assert forall|k: int| 0 <= k < p.len() implies s[k] == #[trigger] p[k] by {}
        if latest_close(p) is Some {
            let k = choose|k: int| 0 <= k < p.len() && (#[trigger] p[k]).closed_at is Some;
            assert(s[k] == p[k]);
        }
        if let Some(t) = latest_close(s) {
            if let Some(q) = latest_close(p) {
                let k = choose|k: int| 0 <= k < p.len() && (#[trigger] p[k]).closed_at == Some(q);
                assert(s[k] == p[k]);
            }
            assert forall|j: int| 0 <= j < s.len() implies match (#[trigger] s[j]).closed_at {
                Some(u) => ts_le(u, t),
                None => true,
            } by {
                if j < n {
                    assert(s[j] == p[j]);
                }
            }
        }
        if exists|k: int| 0 <= k < s.len() && (#[trigger] s[k]).closed_at is Some {
            let k = choose|k: int| 0 <= k < s.len() && (#[trigger] s[k]).closed_at is Some;
            if k < n {
                assert(p[k] == s[k]);
            }
        }
    }
}

/// A document's reported status follows its tracking issues (those carrying
/// its status label): any open one makes it in progress; it is complete
/// exactly when it has tracking issues and all are closed, completed on the
/// UTC date of the latest closing among them, when any has one; with no
/// tracking issue it is overdue after its due date and not started before.
pub proof fn lemma_document_status_law(r: DocumentStatus, doc: Document, s: Seq<Issue>, as_of: Date)
    requires
        document_status_of(r, doc, s, as_of),
        all_wf(s),
    ensures
        (exists|k: int| 0 <= k < s.len() && tracks_document(s[k], doc) && is_open_spec(s[k]))
            ==> r.status == DocumentStatusKind::InProgress && r.completed_date is None,
        r.status == DocumentStatusKind::InProgress ==> exists|k: int|
            0 <= k < s.len() && tracks_document(s[k], doc) && is_open_spec(s[k]),
        r.status == DocumentStatusKind::Complete <==> {
            &&& exists|k: int| 0 <= k < s.len() && tracks_document(s[k], doc)
            &&& forall|k: int|
                0 <= k < s.len() && tracks_document(s[k], doc) ==> is_closed_spec(s[k])
        },
        (forall|k: int| 0 <= k < s.len() ==> !tracks_document(#[trigger] s[k], doc)) ==> {
            &&& r.completed_date is None
            &&& r.status == if as_of.day > doc.due_date.day {
                DocumentStatusKind::Overdue
            } else {
                DocumentStatusKind::NotStarted
            }
        },
        r.completed_date matches Some(d) ==> {
            &&& r.status == DocumentStatusKind::Complete
            &&& exists|k: int|
                0 <= k < s.len() && tracks_document(s[k], doc) && (s[k].closed_at matches Some(
                    t,
                ) && d.day == utc_day(t.secs as int) && forall|j: int|
                    0 <= j < s.len() && tracks_document(s[j], doc) ==> match s[j].closed_at {
                        Some(u) => ts_le(u, t),
                        None => true,
                    })
        },
        r.status == DocumentStatusKind::Complete && (exists|k: int|
            0 <= k < s.len() && tracks_document(s[k], doc) && s[k].closed_at is Some)
            ==> r.completed_date is Some,
{
    let f = doc_issues(s, doc.status_label);
    match doc.status_label {
        Some(l) => {
            let pred = |i: Issue| has_label_spec(i.labels@, l@);
            assert(f == s.filter(pred));
            s.filter_lemma(pred);
            assert forall|i: int| 0 <= i < f.len() implies tracks_document(#[trigger] f[i], doc)
                && s.contains(f[i]) by {
                assert(f.contains(f[i]));
                s.lemma_filter_contains_rev(pred, f[i]);
            }
            assert forall|k: int| 0 <= k < s.len() && tracks_document(s[k], doc) implies f.contains(
                #[trigger] s[k],
            ) by {
                assert(pred(s[k]));
            }
        },
        None => {
            assert(f.len() == 0);
        },
    }
    lemma_latest_close_is_latest(f);
    lemma_latest_close_wf(f);
    assert forall|i: int| 0 <= i < f.len() implies tracks_document(#[trigger] f[i], doc)
        && s.contains(f[i]) by {
        if doc.status_label is None {
            assert(false);
        }
    }
    // An issue is not both open and closed.
    assert(forall|i: Issue| #[trigger] is_open_spec(i) ==> !is_closed_spec(i)) by {
        reveal_strlit("open");
        reveal_strlit("closed");
        assert forall|i: Issue| #[trigger] is_open_spec(i) implies !is_closed_spec(i) by {
            assert(i.state@[0] == 'o');
        }
    }
    if exists|k: int| 0 <= k < s.len() && tracks_document(s[k], doc) && is_open_spec(s[k]) {
        let k = choose|k: int| 0 <= k < s.len() && tracks_document(s[k], doc) && is_open_spec(s[k]);
        assert(f.contains(s[k]));
        let j = choose|j: int| 0 <= j < f.len() && f[j] == s[k];
        assert(!all_closed(f));
        assert(any_open(f));
    }
    if r.status == DocumentStatusKind::InProgress {
        assert(any_open(f));
        let j = choose|j: int| 0 <= j < f.len() && is_open_spec(#[trigger] f[j]);
        assert(s.contains(f[j]));
    }
    if exists|k: int| 0 <= k < s.len() && tracks_document(s[k], doc) {
        let k = choose|k: int| 0 <= k < s.len() && tracks_document(s[k], doc);
        assert(f.contains(s[k]));
        assert(f.len() > 0);
        if forall|k: int| 0 <= k < s.len() && tracks_document(s[k], doc) ==> is_closed_spec(s[k]) {
            assert forall|j: int| 0 <= j < f.len() implies is_closed_spec(#[trigger] f[j]) by {
                assert(s.contains(f[j]));
                let m = choose|m: int| 0 <= m < s.len() && s[m] == f[j];
                assert(tracks_document(s[m], doc));
            }
            assert(all_closed(f));
        }
    }
    if r.status == DocumentStatusKind::Complete {
        assert(f.len() > 0 && all_closed(f));
        assert(f[0] == f[0]);
        assert(s.contains(f[0]));
        let m0 = choose|m: int| 0 <= m < s.len() && s[m] == f[0];
        assert(tracks_document(s[m0], doc));
        assert forall|k: int| 0 <= k < s.len() && tracks_document(s[k], doc) implies is_closed_spec(
            s[k],
        ) by {
            assert(f.contains(s[k]));
            let j = choose|j: int| 0 <= j < f.len() && f[j] == s[k];
            assert(is_closed_spec(f[j]));
        }
        if exists|k: int| 0 <= k < s.len() && tracks_document(s[k], doc) && s[k].closed_at is Some {
            let k = choose|k: int|
                0 <= k < s.len() && tracks_document(s[k], doc) && s[k].closed_at is Some;
            assert(f.contains(s[k]));
            let j = choose|j: int| 0 <= j < f.len() && f[j] == s[k];
            assert(f[j].closed_at is Some);
        }
    }
    if forall|k: int| 0 <= k < s.len() ==> !tracks_document(#[trigger] s[k], doc) {
        if f.len() > 0 {
            assert(s.contains(f[0]));
            let m = choose|m: int| 0 <= m < s.len() && s[m] == f[0];
            assert(tracks_document(s[m], doc));
        }
    }
    if let Some(d) = r.completed_date {
        let t = latest_close(f)->0;
        let j = choose|j: int| 0 <= j < f.len() && (#[trigger] f[j]).closed_at == Some(t);
        assert(s.contains(f[j]));
        let k = choose|k: int| 0 <= k < s.len() && s[k] == f[j];
        assert(t.wf());
        assert forall|m: int| 0 <= m < s.len() && tracks_document(s[m], doc) implies match s[m].closed_at {
            Some(u) => ts_le(u, t),
            None => true,
        } by {
            assert(f.contains(s[m]));
            let q = choose|q: int| 0 <= q < f.len() && f[q] == s[m];
            assert(match f[q].closed_at {
                Some(u) => ts_le(u, t),
                None => true,
            });
        }
        assert(tracks_document(s[k], doc));
    }
}

} // verus!

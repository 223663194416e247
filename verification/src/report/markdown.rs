//! Markdown report renderer.

use vstd::prelude::*;
use crate::calendar::date_text;
use crate::report::data::{
    BacklogChange,
    BlockedTicket,
    CapacitySummary,
    CsciStatus,
    DeliveryItem,
    DependencyStatus,
    DistractionSummary,
    DocumentStatus,
    DocumentStatusKind,
    LeaveEntry,
    MilestoneStatus,
    ReportData,
    TicketSummary,
    dependency_at_risk,
    dependency_symbol,
    projection_symbol,
    projection_text,
    trend_spec,
};
use crate::report::texts::{
    CsciTexts,
    NumberTexts,
    bar_spec,
    buffer_magnitude,
    contains_text,
    join_comma,
    lemma_contains_around,
    lemma_contains_part,
    lemma_lines_of_contains,
    lines_of,
    plus_signed,
    push_date,
    push_joined,
    push_plus_signed,
    report_wf,
    text_or,
    texts_fit,
};
use crate::text::{self, decimal, signed_decimal};

verus! {

// ---------------------------------------------------------------------------
// Page 1: the week
// ---------------------------------------------------------------------------

/// Title and date range of the week.
#[verifier::opaque]
pub open spec fn md_header(data: ReportData) -> Seq<char> {
    "# DELTAV WEEKLY REPORT — "@ + data.meta.project_name@ + " — "@ + data.meta.week@ + "\n**"@
        + date_text(data.meta.week_start.day as int) + " to "@ + date_text(
        data.meta.week_end.day as int,
    ) + "**\n\n"@
}

/// One delivery.
pub open spec fn md_delivery(d: DeliveryItem) -> Seq<char> {
    "- ☑ "@ + d.id@ + " — "@ + d.name@ + (if d.was_blocked {
        " (was blocked)"@
    } else {
        Seq::empty()
    }) + "\n"@
}

/// The deliveries section.
#[verifier::opaque]
pub open spec fn md_deliveries(ds: Seq<DeliveryItem>) -> Seq<char> {
    "## Deliveries This Week\n\n"@ + if ds.len() == 0 {
        "_No deliveries this week._\n\n"@
    } else {
        lines_of(ds, |d: DeliveryItem| md_delivery(d)) + "\n"@
    }
}

/// The ticket summary table.
#[verifier::opaque]
pub open spec fn md_tickets(t: TicketSummary, velocity: Seq<char>) -> Seq<char> {
    "## Ticket Summary\n\n| Metric | Value |\n|--------|-------|\n| Closed | "@ + decimal(
        t.closed as nat,
    ) + " ("@ + trend_spec(t.closed, t.closed_prev) + " from "@ + decimal(t.closed_prev as nat)
        + ") |\n| Opened | "@ + decimal(t.opened as nat) + " |\n| Net | "@ + plus_signed(
        t.net as int,
    ) + " toward done |\n| Points Delivered | "@ + decimal(t.points_delivered as nat)
        + " |\n| Velocity (4wk avg) | "@ + velocity + " |\n\n"@
}

/// The backlog section.
#[verifier::opaque]
pub open spec fn md_backlog(b: BacklogChange) -> Seq<char> {
    "## Backlog Change\n\n- Start of week: "@ + decimal(b.start as nat) + " tickets\n- End of week: "@
        + decimal(b.end as nat) + " tickets\n"@ + (if b.new_work > 0 {
        "- New work: "@ + decimal(b.new_work as nat) + " tickets ("@ + text_or(
            b.new_work_note,
            "new work added"@,
        ) + ")\n"@
    } else {
        Seq::empty()
    }) + "\n"@
}

/// One leave entry.
pub open spec fn md_leave(l: LeaveEntry) -> Seq<char> {
    "- **"@ + l.name@ + "**: "@ + text_or(l.reason, "leave"@) + " ("@ + decimal(
        l.capacity_percent as nat,
    ) + "% capacity)\n"@
}

/// The capacity section.
#[verifier::opaque]
pub open spec fn md_capacity(c: CapacitySummary, perf: Seq<char>, met: bool) -> Seq<char> {
    "## Capacity Factors\n\n"@ + (if c.leave.len() == 0 {
        "_No capacity adjustments this week._\n\n"@
    } else {
        lines_of(c.leave@, |l: LeaveEntry| md_leave(l)) + "\n"@
    }) + "- Adjusted velocity expectation: "@ + decimal(c.expected_velocity as nat)
        + " points\n- Actual: "@ + decimal(c.actual_velocity as nat) + " points ("@ + perf
        + "% of adjusted target) "@ + (if met {
        "✓"@
    } else {
        Seq::empty()
    }) + "\n\n"@
}

/// One blocked ticket.
pub open spec fn md_blocked(b: BlockedTicket) -> Seq<char> {
    "- **"@ + b.repo@ + "#"@ + decimal(b.number as nat) + "**: "@ + b.title@ + " — _blocked on: "@
        + b.blocked_on@ + "_\n"@
}

/// The blocked-tickets section.
#[verifier::opaque]
pub open spec fn md_blocked_section(bs: Seq<BlockedTicket>) -> Seq<char> {
    "## Blocked / External\n\n"@ + if bs.len() == 0 {
        "_No blocked tickets._\n\n"@
    } else {
        lines_of(bs, |b: BlockedTicket| md_blocked(b)) + "\n"@
    }
}

/// One distraction, with its estimated hours when known.
pub open spec fn md_distraction(d: DistractionSummary, hours: Option<String>) -> Seq<char> {
    "- **"@ + d.name@ + "**: "@ + decimal(d.ticket_count as nat) + " tickets"@ + match hours {
        Some(h) => ", ~"@ + h@ + " hours"@,
        None => Seq::empty(),
    } + if d.assignees.len() == 0 {
        Seq::empty()
    } else {
        " ("@ + join_comma(d.assignees@) + ")"@
    } + "\n"@
}

/// The distraction lines, each with its hours.
pub open spec fn md_distraction_lines(ds: Seq<DistractionSummary>, hours: Seq<Option<String>>) -> Seq<
    char,
>
    decreases ds.len(),
{
    if ds.len() == 0 {
        Seq::empty()
    } else {
        md_distraction_lines(ds.drop_last(), hours.drop_last()) + md_distraction(
            ds.last(),
            hours[ds.len() - 1],
        )
    }
}

/// The distractions section.
#[verifier::opaque]
pub open spec fn md_distractions(ds: Seq<DistractionSummary>, hours: Seq<Option<String>>) -> Seq<
    char,
> {
    "## Non-Project Time Sinks\n\n"@ + if ds.len() == 0 {
        "_No non-project work recorded._\n\n"@
    } else {
        md_distraction_lines(ds, hours) + "\n"@
    }
}

/// The first page: the week's deliveries, tickets, backlog, capacity,
/// blocked tickets and distractions.
pub open spec fn md_page1(data: ReportData, nums: NumberTexts) -> Seq<char> {
    md_header(data) + md_deliveries(data.weekly.deliveries@) + md_tickets(
        data.weekly.tickets,
        nums.velocity_avg@,
    ) + md_backlog(data.weekly.backlog) + md_capacity(
        data.weekly.capacity,
        nums.performance_percent@,
        nums.performance_met,
    ) + md_blocked_section(data.weekly.blocked@) + md_distractions(
        data.weekly.distractions@,
        nums.distraction_hours@,
    )
}

fn push_header(out: &mut String, data: &ReportData)
    requires
        report_wf(*data),
    ensures
        final(out)@ == old(out)@ + md_header(*data),
{
    proof {
        reveal(md_header);
    }
    text::push_str(out, "# DELTAV WEEKLY REPORT — ");
    text::push_str(out, data.meta.project_name.as_str());
    text::push_str(out, " — ");
    text::push_str(out, data.meta.week.as_str());
    text::push_str(out, "\n**");
    push_date(out, data.meta.week_start);
    text::push_str(out, " to ");
    push_date(out, data.meta.week_end);
    text::push_str(out, "**\n\n");
    proof {
        assert(final(out)@ =~= old(out)@ + md_header(*data));
    }
}

fn push_delivery(out: &mut String, d: &DeliveryItem)
    ensures
        final(out)@ == old(out)@ + md_delivery(*d),
{
    text::push_str(out, "- ☑ ");
    text::push_str(out, d.id.as_str());
    text::push_str(out, " — ");
    text::push_str(out, d.name.as_str());
    if d.was_blocked {
        text::push_str(out, " (was blocked)");
    }
    text::push_str(out, "\n");
    proof {
        assert(final(out)@ =~= old(out)@ + md_delivery(*d));
    }
}

fn push_deliveries(out: &mut String, ds: &Vec<DeliveryItem>)
    ensures
        final(out)@ == old(out)@ + md_deliveries(ds@),
{
    proof {
        reveal(md_deliveries);
    }
    text::push_str(out, "## Deliveries This Week\n\n");
    if ds.len() == 0 {
        text::push_str(out, "_No deliveries this week._\n\n");
    } else {
        let ghost start = out@;
        let mut i: usize = 0;
        while i < ds.len()
            invariant
                i <= ds.len(),
                out@ == start + lines_of(ds@.take(i as int), |d: DeliveryItem| md_delivery(d)),
            decreases ds.len() - i,
        {
            push_delivery(out, &ds[i]);
            proof {
                assert(ds@.take(i + 1).drop_last() =~= ds@.take(i as int));
                assert(out@ =~= start + lines_of(
                    ds@.take(i + 1),
                    |d: DeliveryItem| md_delivery(d),
                ));
            }
            i = i + 1;
        }
        proof {
            assert(ds@.take(i as int) =~= ds@);
        }
        text::push_str(out, "\n");
    }
    proof {
        assert(final(out)@ =~= old(out)@ + md_deliveries(ds@));
    }
}

fn push_tickets(out: &mut String, t: &TicketSummary, velocity: &str)
    ensures
        final(out)@ == old(out)@ + md_tickets(*t, velocity@),
{
    proof {
        reveal(md_tickets);
    }
    text::push_str(out, "## Ticket Summary\n\n| Metric | Value |\n|--------|-------|\n| Closed | ");
    text::push_decimal(out, t.closed as u64);
    text::push_str(out, " (");
    text::push_str(out, t.closed_trend());
    text::push_str(out, " from ");
    text::push_decimal(out, t.closed_prev as u64);
    text::push_str(out, ") |\n| Opened | ");
    text::push_decimal(out, t.opened as u64);
    text::push_str(out, " |\n| Net | ");
    push_plus_signed(out, t.net as i64);
    text::push_str(out, " toward done |\n| Points Delivered | ");
    text::push_decimal(out, t.points_delivered as u64);
    text::push_str(out, " |\n| Velocity (4wk avg) | ");
    text::push_str(out, velocity);
    text::push_str(out, " |\n\n");
    proof {
        assert(final(out)@ =~= old(out)@ + md_tickets(*t, velocity@));
    }
}

fn push_backlog(out: &mut String, b: &BacklogChange)
    ensures
        final(out)@ == old(out)@ + md_backlog(*b),
{
    proof {
        reveal(md_backlog);
    }
    text::push_str(out, "## Backlog Change\n\n- Start of week: ");
    text::push_decimal(out, b.start as u64);
    text::push_str(out, " tickets\n- End of week: ");
    text::push_decimal(out, b.end as u64);
    text::push_str(out, " tickets\n");
    let ghost mid = out@;
    if b.new_work > 0 {
        text::push_str(out, "- New work: ");
        text::push_decimal(out, b.new_work as u64);
        text::push_str(out, " tickets (");
        match &b.new_work_note {
            Some(n) => text::push_str(out, n.as_str()),
            None => text::push_str(out, "new work added"),
        }
        text::push_str(out, ")\n");
    }
    text::push_str(out, "\n");
    proof {
        assert(final(out)@ =~= old(out)@ + md_backlog(*b));
    }
}

fn push_leave(out: &mut String, l: &LeaveEntry)
    ensures
        final(out)@ == old(out)@ + md_leave(*l),
{
    text::push_str(out, "- **");
    text::push_str(out, l.name.as_str());
    text::push_str(out, "**: ");
    match &l.reason {
        Some(r) => text::push_str(out, r.as_str()),
        None => text::push_str(out, "leave"),
    }
    text::push_str(out, " (");
    text::push_decimal(out, l.capacity_percent as u64);
    text::push_str(out, "% capacity)\n");
    proof {
        assert(final(out)@ =~= old(out)@ + md_leave(*l));
    }
}

fn push_capacity(out: &mut String, c: &CapacitySummary, perf: &str, met: bool)
    ensures
        final(out)@ == old(out)@ + md_capacity(*c, perf@, met),
{
    proof {
        reveal(md_capacity);
    }
    text::push_str(out, "## Capacity Factors\n\n");
    let ghost head = out@;
    if c.leave.len() == 0 {
        text::push_str(out, "_No capacity adjustments this week._\n\n");
    } else {
        let ghost start = out@;
        let mut i: usize = 0;
        while i < c.leave.len()
            invariant
                i <= c.leave.len(),
                out@ == start + lines_of(c.leave@.take(i as int), |l: LeaveEntry| md_leave(l)),
            decreases c.leave.len() - i,
        {
            push_leave(out, &c.leave[i]);
            proof {
                assert(c.leave@.take(i + 1).drop_last() =~= c.leave@.take(i as int));
                assert(out@ =~= start + lines_of(
                    c.leave@.take(i + 1),
                    |l: LeaveEntry| md_leave(l),
                ));
            }
            i = i + 1;
        }
        proof {
            assert(c.leave@.take(i as int) =~= c.leave@);
        }
        text::push_str(out, "\n");
    }
    text::push_str(out, "- Adjusted velocity expectation: ");
    text::push_decimal(out, c.expected_velocity as u64);
    text::push_str(out, " points\n- Actual: ");
    text::push_decimal(out, c.actual_velocity as u64);
    text::push_str(out, " points (");
    text::push_str(out, perf);
    text::push_str(out, "% of adjusted target) ");
    if met {
        text::push_str(out, "✓");
    }
    text::push_str(out, "\n\n");
    proof {
        assert(final(out)@ =~= old(out)@ + md_capacity(*c, perf@, met));
    }
}

fn push_blocked_line(out: &mut String, b: &BlockedTicket)
    ensures
        final(out)@ == old(out)@ + md_blocked(*b),
{
    text::push_str(out, "- **");
    text::push_str(out, b.repo.as_str());
    text::push_str(out, "#");
    text::push_decimal(out, b.number);
    text::push_str(out, "**: ");
    text::push_str(out, b.title.as_str());
    text::push_str(out, " — _blocked on: ");
    text::push_str(out, b.blocked_on.as_str());
    text::push_str(out, "_\n");
    proof {
        assert(final(out)@ =~= old(out)@ + md_blocked(*b));
    }
}

fn push_blocked(out: &mut String, bs: &Vec<BlockedTicket>)
    ensures
        final(out)@ == old(out)@ + md_blocked_section(bs@),
{
    proof {
        reveal(md_blocked_section);
    }
    text::push_str(out, "## Blocked / External\n\n");
    if bs.len() == 0 {
        text::push_str(out, "_No blocked tickets._\n\n");
    } else {
        let ghost start = out@;
        let mut i: usize = 0;
        while i < bs.len()
            invariant
                i <= bs.len(),
                out@ == start + lines_of(bs@.take(i as int), |b: BlockedTicket| md_blocked(b)),
            decreases bs.len() - i,
        {
            push_blocked_line(out, &bs[i]);
            proof {
                assert(bs@.take(i + 1).drop_last() =~= bs@.take(i as int));
                assert(out@ =~= start + lines_of(
                    bs@.take(i + 1),
                    |b: BlockedTicket| md_blocked(b),
                ));
            }
            i = i + 1;
        }
        proof {
            assert(bs@.take(i as int) =~= bs@);
        }
        text::push_str(out, "\n");
    }
    proof {
        assert(final(out)@ =~= old(out)@ + md_blocked_section(bs@));
    }
}

fn push_distraction(out: &mut String, d: &DistractionSummary, hours: &Option<String>)
    ensures
        final(out)@ == old(out)@ + md_distraction(*d, *hours),
{
    text::push_str(out, "- **");
    text::push_str(out, d.name.as_str());
    text::push_str(out, "**: ");
    text::push_decimal(out, d.ticket_count as u64);
    text::push_str(out, " tickets");
    match hours {
        Some(h) => {
            text::push_str(out, ", ~");
            text::push_str(out, h.as_str());
            text::push_str(out, " hours");
        },
        None => {},
    }
    if d.assignees.len() > 0 {
        text::push_str(out, " (");
        push_joined(out, &d.assignees);
        text::push_str(out, ")");
    }
    text::push_str(out, "\n");
    proof {
        assert(final(out)@ =~= old(out)@ + md_distraction(*d, *hours));
    }
}

fn push_distractions(out: &mut String, ds: &Vec<DistractionSummary>, hours: &Vec<Option<String>>)
    requires
        hours.len() == ds.len(),
    ensures
        final(out)@ == old(out)@ + md_distractions(ds@, hours@),
{
    proof {
        reveal(md_distractions);
    }
    text::push_str(out, "## Non-Project Time Sinks\n\n");
    if ds.len() == 0 {
        text::push_str(out, "_No non-project work recorded._\n\n");
    } else {
        let ghost start = out@;
        let mut i: usize = 0;
        while i < ds.len()
            invariant
                i <= ds.len() == hours.len(),
                out@ == start + md_distraction_lines(
                    ds@.take(i as int),
                    hours@.take(i as int),
                ),
            decreases ds.len() - i,
        {
            push_distraction(out, &ds[i], &hours[i]);
            proof {
                assert(ds@.take(i + 1).drop_last() =~= ds@.take(i as int));
                assert(hours@.take(i + 1).drop_last() =~= hours@.take(i as int));
                assert(hours@.take(i + 1)[i as int] == hours@[i as int]);
                assert(out@ =~= start + md_distraction_lines(
                    ds@.take(i + 1),
                    hours@.take(i + 1),
                ));
            }
            i = i + 1;
        }
        proof {
            assert(ds@.take(i as int) =~= ds@);
            assert(hours@.take(i as int) =~= hours@);
        }
        text::push_str(out, "\n");
    }
    proof {
        assert(final(out)@ =~= old(out)@ + md_distractions(ds@, hours@));
    }
}

fn push_page1(out: &mut String, data: &ReportData, nums: &NumberTexts)
    requires
        report_wf(*data),
        texts_fit(*data, *nums),
    ensures
        final(out)@ == old(out)@ + md_page1(*data, *nums),
{
    push_header(out, data);
    push_deliveries(out, &data.weekly.deliveries);
    push_tickets(out, &data.weekly.tickets, nums.velocity_avg.as_str());
    push_backlog(out, &data.weekly.backlog);
    push_capacity(
        out,
        &data.weekly.capacity,
        nums.performance_percent.as_str(),
        nums.performance_met,
    );
    push_blocked(out, &data.weekly.blocked);
    push_distractions(out, &data.weekly.distractions, &nums.distraction_hours);
    proof {
        assert(final(out)@ =~= old(out)@ + md_page1(*data, *nums));
    }
}

// ---------------------------------------------------------------------------
// Page 2: the project
// ---------------------------------------------------------------------------

/// Title, timeline and the start of the CSCI section.
#[verifier::opaque]
pub open spec fn md_status_header(data: ReportData, percent_elapsed: Seq<char>) -> Seq<char> {
    "# PROJECT STATUS — "@ + data.meta.project_name@ + "\n**As of "@ + date_text(
        data.meta.week_end.day as int,
    ) + " | Day "@ + signed_decimal(data.project.timeline.days_elapsed as int) + " of "@
        + signed_decimal(data.project.timeline.total_days as int) + " ("@ + percent_elapsed
        + "% elapsed)**\n\n## CSCI Completion\n\n_Adjusted for backlog completeness estimate._\n\n"@
}

/// Title and progress bar of a CSCI.
pub open spec fn md_csci_head(c: CsciStatus, t: CsciTexts) -> Seq<char> {
    "### "@ + c.name@ + " ("@ + c.id@ + ") — Target: "@ + date_text(c.target_date.day as int)
        + "\n\n```\n"@ + bar_spec(t.filled_cells as nat, 25) + " "@ + t.completion@
        + "% complete\n```\n\n"@
}

/// Tier counts of a CSCI.
pub open spec fn md_csci_tiers(c: CsciStatus) -> Seq<char> {
    "- **Tier 1** (integration-ready): "@ + decimal(c.tier1_complete as nat) + "/"@ + decimal(
        c.total_tickets as nat,
    ) + " tickets\n- **Tier 2** (HIL-passed): "@ + decimal(c.tier2_complete as nat) + "/"@
        + decimal(c.total_tickets as nat) + " tickets\n"@
}

/// Projection line of a CSCI.
pub open spec fn md_csci_projection(c: CsciStatus) -> Seq<char> {
    "- **Projection**: "@ + projection_symbol(c.projection) + " "@ + projection_text(c.projection)
        + " ("@ + decimal(buffer_magnitude(c)) + " days "@ + (if c.buffer_days >= 0 {
        "buffer"@
    } else {
        "behind"@
    }) + ")\n\n"@
}

/// One CSCI, with the texts of its completion.
pub open spec fn md_csci(c: CsciStatus, t: CsciTexts) -> Seq<char> {
    md_csci_head(c, t) + md_csci_tiers(c) + md_csci_projection(c)
}

/// The CSCI blocks, each with its texts.
pub open spec fn md_csci_lines(cs: Seq<CsciStatus>, ts: Seq<CsciTexts>) -> Seq<char>
    decreases cs.len(),
{
    if cs.len() == 0 {
        Seq::empty()
    } else {
        md_csci_lines(cs.drop_last(), ts.drop_last()) + md_csci(cs.last(), ts[cs.len() - 1])
    }
}

/// Identity cells of a dependency row.
pub open spec fn md_dependency_names(d: DependencyStatus) -> Seq<char> {
    "| "@ + d.id@ + " | "@ + d.name@ + " | "@ + d.owner@ + " | "@
}

/// Delivery cells of a dependency row.
pub open spec fn md_dependency_dates(d: DependencyStatus) -> Seq<char> {
    (if d.rc_received {
        "✓"@
    } else {
        dependency_symbol(d.status)
    }) + " "@ + date_text(d.rc_due.day as int) + " | "@ + (if d.final_received {
        "✓"@
    } else {
        "○"@
    }) + " "@ + date_text(d.final_due.day as int) + " | "@ + (if dependency_at_risk(d.status) {
        "⚠ At Risk"@
    } else {
        Seq::empty()
    }) + " |\n"@
}

/// One dependency row.
pub open spec fn md_dependency(d: DependencyStatus) -> Seq<char> {
    md_dependency_names(d) + md_dependency_dates(d)
}

/// The dependencies section.
#[verifier::opaque]
pub open spec fn md_dependencies(ds: Seq<DependencyStatus>) -> Seq<char> {
    "## External Dependencies\n\n"@ + if ds.len() == 0 {
        "_No external dependencies._\n\n"@
    } else {
        "| ID | Name | Owner | RC | Final | Status |\n|----|------|-------|-----|-------|--------|\n"@
            + lines_of(ds, |d: DependencyStatus| md_dependency(d)) + "\n"@
    }
}

/// The status text of a document.
pub open spec fn md_document_status(d: DocumentStatus) -> Seq<char> {
    match d.status {
        DocumentStatusKind::Complete => "✓ Complete ("@ + match d.completed_date {
            Some(c) => date_text(c.day as int),
            None => Seq::empty(),
        } + ")"@,
        DocumentStatusKind::InProgress => "◐ "@ + text_or(d.note, "in progress"@) + ", due "@
            + date_text(d.due_date.day as int),
        DocumentStatusKind::NotStarted => "○ Not started, due "@ + date_text(
            d.due_date.day as int,
        ),
        DocumentStatusKind::Overdue => "✗ Overdue (was due "@ + date_text(d.due_date.day as int)
            + ")"@,
    }
}

/// One document.
pub open spec fn md_document(d: DocumentStatus) -> Seq<char> {
    "- **"@ + d.name@ + "** ("@ + d.id@ + "): "@ + md_document_status(d) + "\n"@
}

/// The documents section.
#[verifier::opaque]
pub open spec fn md_documents(ds: Seq<DocumentStatus>) -> Seq<char> {
    "## Documents\n\n"@ + if ds.len() == 0 {
        "_No documents tracked._\n\n"@
    } else {
        lines_of(ds, |d: DocumentStatus| md_document(d)) + "\n"@
    }
}

/// One milestone.
pub open spec fn md_milestone(m: MilestoneStatus) -> Seq<char> {
    "- **"@ + date_text(m.date.day as int) + "**: "@ + m.name@ + " ("@ + signed_decimal(
        m.days_until as int,
    ) + " days)\n"@
}

/// The milestones section.
#[verifier::opaque]
pub open spec fn md_milestones(ms: Seq<MilestoneStatus>) -> Seq<char> {
    "## Upcoming Milestones\n\n"@ + if ms.len() == 0 {
        "_No upcoming milestones._\n\n"@
    } else {
        lines_of(ms, |m: MilestoneStatus| md_milestone(m)) + "\n"@
    }
}

/// The glossary closing the second page.
pub const MD_GLOSSARY: &'static str = "## Metrics Glossary\n\n**Tier 1 (Integration-Ready)**: Code complete, unit tested, CI passing, ready for HIL integration.\n\n**Tier 2 (HIL-Passed)**: Successfully tested in hardware-in-the-loop environment, approved for formal release.\n\n**T-Shirt Sizing**: XS=1pt (<2hr) | S=2pt (half day) | M=5pt (1-2 days) | L=8pt (3-5 days) | XL=13pt (week+)\n\n";

/// The second page: timeline, CSCIs, dependencies, documents, milestones and
/// the glossary.
pub open spec fn md_page2(data: ReportData, nums: NumberTexts) -> Seq<char> {
    md_status_header(data, nums.percent_elapsed@) + md_csci_lines(
        data.project.cscis@,
        nums.cscis@,
    ) + md_dependencies(data.project.dependencies@) + md_documents(data.project.documents@)
        + md_milestones(data.project.milestones@) + MD_GLOSSARY@
}

/// The whole Markdown report: the two pages separated by a rule.
pub open spec fn md_report(data: ReportData, nums: NumberTexts) -> Seq<char> {
    md_page1(data, nums) + "\n---\n\n"@ + md_page2(data, nums)
}

fn push_status_header(out: &mut String, data: &ReportData, percent_elapsed: &str)
    requires
        report_wf(*data),
    ensures
        final(out)@ == old(out)@ + md_status_header(*data, percent_elapsed@),
{
    proof {
        reveal(md_status_header);
    }
    text::push_str(out, "# PROJECT STATUS — ");
    text::push_str(out, data.meta.project_name.as_str());
    text::push_str(out, "\n**As of ");
    push_date(out, data.meta.week_end);
    text::push_str(out, " | Day ");
    text::push_signed_decimal(out, data.project.timeline.days_elapsed);
    text::push_str(out, " of ");
    text::push_signed_decimal(out, data.project.timeline.total_days);
    text::push_str(out, " (");
    text::push_str(out, percent_elapsed);
    text::push_str(
        out,
        "% elapsed)**\n\n## CSCI Completion\n\n_Adjusted for backlog completeness estimate._\n\n",
    );
    proof {
        assert(final(out)@ =~= old(out)@ + md_status_header(*data, percent_elapsed@));
    }
}

fn push_csci_head(out: &mut String, c: &CsciStatus, t: &CsciTexts)
    requires
        c.target_date.wf(),
    ensures
        final(out)@ == old(out)@ + md_csci_head(*c, *t),
{
    text::push_str(out, "### ");
    text::push_str(out, c.name.as_str());
    text::push_str(out, " (");
    text::push_str(out, c.id.as_str());
    text::push_str(out, ") — Target: ");
    push_date(out, c.target_date);
    text::push_str(out, "\n\n```\n");
    let bar = crate::report::texts::progress_bar_cells(t.filled_cells, 25);
    text::push_str(out, bar.as_str());
    text::push_str(out, " ");
    text::push_str(out, t.completion.as_str());
    text::push_str(out, "% complete\n```\n\n");
    proof {
        assert(final(out)@ =~= old(out)@ + md_csci_head(*c, *t));
    }
}

fn push_csci_tiers(out: &mut String, c: &CsciStatus)
    ensures
        final(out)@ == old(out)@ + md_csci_tiers(*c),
{
    text::push_str(out, "- **Tier 1** (integration-ready): ");
    text::push_decimal(out, c.tier1_complete as u64);
    text::push_str(out, "/");
    text::push_decimal(out, c.total_tickets as u64);
    text::push_str(out, " tickets\n- **Tier 2** (HIL-passed): ");
    text::push_decimal(out, c.tier2_complete as u64);
    text::push_str(out, "/");
    text::push_decimal(out, c.total_tickets as u64);
    text::push_str(out, " tickets\n");
    proof {
        assert(final(out)@ =~= old(out)@ + md_csci_tiers(*c));
    }
}

fn push_csci_projection(out: &mut String, c: &CsciStatus)
    requires
        c.buffer_days > i64::MIN,
    ensures
        final(out)@ == old(out)@ + md_csci_projection(*c),
{
    text::push_str(out, "- **Projection**: ");
    text::push_str(out, c.projection.symbol());
    text::push_str(out, " ");
    text::push_str(out, c.projection.as_str());
    text::push_str(out, " (");
    let magnitude: u64 = if c.buffer_days < 0 {
        (-c.buffer_days) as u64
    } else {
        c.buffer_days as u64
    };
    text::push_decimal(out, magnitude);
    text::push_str(out, " days ");
    if c.buffer_days >= 0 {
        text::push_str(out, "buffer");
    } else {
        text::push_str(out, "behind");
    }
    text::push_str(out, ")\n\n");
    proof {
        assert(final(out)@ =~= old(out)@ + md_csci_projection(*c));
    }
}

fn push_csci(out: &mut String, c: &CsciStatus, t: &CsciTexts)
    requires
        c.target_date.wf(),
        c.buffer_days > i64::MIN,
    ensures
        final(out)@ == old(out)@ + md_csci(*c, *t),
{
    push_csci_head(out, c, t);
    push_csci_tiers(out, c);
    push_csci_projection(out, c);
    proof {
        assert(final(out)@ =~= old(out)@ + md_csci(*c, *t));
    }
}

fn push_cscis(out: &mut String, data: &ReportData, ts: &Vec<CsciTexts>)
    requires
        report_wf(*data),
        ts.len() == data.project.cscis.len(),
    ensures
        final(out)@ == old(out)@ + md_csci_lines(data.project.cscis@, ts@),
{
    let cs = &data.project.cscis;
    let ghost start = out@;
    let mut i: usize = 0;
    while i < cs.len()
        invariant
            i <= cs.len() == ts.len(),
            cs == data.project.cscis,
            report_wf(*data),
            out@ == start + md_csci_lines(cs@.take(i as int), ts@.take(i as int)),
        decreases cs.len() - i,
    {
        proof {
            assert(data.project.cscis@[i as int] == cs@[i as int]);
        }
        push_csci(out, &cs[i], &ts[i]);
        proof {
            assert(cs@.take(i + 1).drop_last() =~= cs@.take(i as int));
            assert(ts@.take(i + 1).drop_last() =~= ts@.take(i as int));
            assert(ts@.take(i + 1)[i as int] == ts@[i as int]);
            assert(out@ =~= start + md_csci_lines(cs@.take(i + 1), ts@.take(i + 1)));
        }
        i = i + 1;
    }
    proof {
        assert(cs@.take(i as int) =~= cs@);
        assert(ts@.take(i as int) =~= ts@);
    }
}

fn push_dependency_names(out: &mut String, d: &DependencyStatus)
    ensures
        final(out)@ == old(out)@ + md_dependency_names(*d),
{
    text::push_str(out, "| ");
    text::push_str(out, d.id.as_str());
    text::push_str(out, " | ");
    text::push_str(out, d.name.as_str());
    text::push_str(out, " | ");
    text::push_str(out, d.owner.as_str());
    text::push_str(out, " | ");
    proof {
        assert(final(out)@ =~= old(out)@ + md_dependency_names(*d));
    }
}

fn push_dependency_dates(out: &mut String, d: &DependencyStatus)
    requires
        d.rc_due.wf(),
        d.final_due.wf(),
    ensures
        final(out)@ == old(out)@ + md_dependency_dates(*d),
{
    if d.rc_received {
        text::push_str(out, "✓");
    } else {
        text::push_str(out, d.status.symbol());
    }
    text::push_str(out, " ");
    push_date(out, d.rc_due);
    text::push_str(out, " | ");
    if d.final_received {
        text::push_str(out, "✓");
    } else {
        text::push_str(out, "○");
    }
    text::push_str(out, " ");
    push_date(out, d.final_due);
    text::push_str(out, " | ");
    if d.status.is_at_risk() {
        text::push_str(out, "⚠ At Risk");
    }
    text::push_str(out, " |\n");
    proof {
        assert(final(out)@ =~= old(out)@ + md_dependency_dates(*d));
    }
}

fn push_dependency(out: &mut String, d: &DependencyStatus)
    requires
        d.rc_due.wf(),
        d.final_due.wf(),
    ensures
        final(out)@ == old(out)@ + md_dependency(*d),
{
    push_dependency_names(out, d);
    push_dependency_dates(out, d);
    proof {
        assert(final(out)@ =~= old(out)@ + md_dependency(*d));
    }
}

fn push_dependencies(out: &mut String, data: &ReportData)
    requires
        report_wf(*data),
    ensures
        final(out)@ == old(out)@ + md_dependencies(data.project.dependencies@),
{
    proof {
        reveal(md_dependencies);
    }
    let ds = &data.project.dependencies;
    text::push_str(out, "## External Dependencies\n\n");
    if ds.len() == 0 {
        text::push_str(out, "_No external dependencies._\n\n");
    } else {
        text::push_str(
            out,
            "| ID | Name | Owner | RC | Final | Status |\n|----|------|-------|-----|-------|--------|\n",
        );
        let ghost start = out@;
        let mut i: usize = 0;
        while i < ds.len()
            invariant
                i <= ds.len(),
                ds == data.project.dependencies,
                report_wf(*data),
                out@ == start + lines_of(
                    ds@.take(i as int),
                    |d: DependencyStatus| md_dependency(d),
                ),
            decreases ds.len() - i,
        {
            proof {
                assert(data.project.dependencies@[i as int] == ds@[i as int]);
            }
            push_dependency(out, &ds[i]);
            proof {
                assert(ds@.take(i + 1).drop_last() =~= ds@.take(i as int));
                assert(out@ =~= start + lines_of(
                    ds@.take(i + 1),
                    |d: DependencyStatus| md_dependency(d),
                ));
            }
            i = i + 1;
        }
        proof {
            assert(ds@.take(i as int) =~= ds@);
        }
        text::push_str(out, "\n");
    }
    proof {
        assert(final(out)@ =~= old(out)@ + md_dependencies(data.project.dependencies@));
    }
}

fn push_document(out: &mut String, d: &DocumentStatus)
    requires
        d.due_date.wf(),
        d.completed_date matches Some(c) ==> c.wf(),
    ensures
        final(out)@ == old(out)@ + md_document(*d),
{
    text::push_str(out, "- **");
    text::push_str(out, d.name.as_str());
    text::push_str(out, "** (");
    text::push_str(out, d.id.as_str());
    text::push_str(out, "): ");
    match d.status {
        DocumentStatusKind::Complete => {
            text::push_str(out, "✓ Complete (");
            match d.completed_date {
                Some(c) => push_date(out, c),
                None => {},
            }
            text::push_str(out, ")");
        },
        DocumentStatusKind::InProgress => {
            text::push_str(out, "◐ ");
            match &d.note {
                Some(n) => text::push_str(out, n.as_str()),
                None => text::push_str(out, "in progress"),
            }
            text::push_str(out, ", due ");
            push_date(out, d.due_date);
        },
        DocumentStatusKind::NotStarted => {
            text::push_str(out, "○ Not started, due ");
            push_date(out, d.due_date);
        },
        DocumentStatusKind::Overdue => {
            text::push_str(out, "✗ Overdue (was due ");
            push_date(out, d.due_date);
            text::push_str(out, ")");
        },
    }
    text::push_str(out, "\n");
    proof {
        assert(final(out)@ =~= old(out)@ + md_document(*d));
    }
}

fn push_documents(out: &mut String, data: &ReportData)
    requires
        report_wf(*data),
    ensures
        final(out)@ == old(out)@ + md_documents(data.project.documents@),
{
    proof {
        reveal(md_documents);
    }
    let ds = &data.project.documents;
    text::push_str(out, "## Documents\n\n");
    if ds.len() == 0 {
        text::push_str(out, "_No documents tracked._\n\n");
    } else {
        let ghost start = out@;
        let mut i: usize = 0;
        while i < ds.len()
            invariant
                i <= ds.len(),
                ds == data.project.documents,
                report_wf(*data),
                out@ == start + lines_of(ds@.take(i as int), |d: DocumentStatus| md_document(d)),
            decreases ds.len() - i,
        {
            proof {
                assert(data.project.documents@[i as int] == ds@[i as int]);
            }
            push_document(out, &ds[i]);
            proof {
                assert(ds@.take(i + 1).drop_last() =~= ds@.take(i as int));
                assert(out@ =~= start + lines_of(
                    ds@.take(i + 1),
                    |d: DocumentStatus| md_document(d),
                ));
            }
            i = i + 1;
        }
        proof {
            assert(ds@.take(i as int) =~= ds@);
        }
        text::push_str(out, "\n");
    }
    proof {
        assert(final(out)@ =~= old(out)@ + md_documents(data.project.documents@));
    }
}

fn push_milestone(out: &mut String, m: &MilestoneStatus)
    requires
        m.date.wf(),
    ensures
        final(out)@ == old(out)@ + md_milestone(*m),
{
    text::push_str(out, "- **");
    push_date(out, m.date);
    text::push_str(out, "**: ");
    text::push_str(out, m.name.as_str());
    text::push_str(out, " (");
    text::push_signed_decimal(out, m.days_until);
    text::push_str(out, " days)\n");
    proof {
        assert(final(out)@ =~= old(out)@ + md_milestone(*m));
    }
}

fn push_milestones(out: &mut String, data: &ReportData)
    requires
        report_wf(*data),
    ensures
        final(out)@ == old(out)@ + md_milestones(data.project.milestones@),
{
    proof {
        reveal(md_milestones);
    }
    let ms = &data.project.milestones;
    text::push_str(out, "## Upcoming Milestones\n\n");
    if ms.len() == 0 {
        text::push_str(out, "_No upcoming milestones._\n\n");
    } else {
        let ghost start = out@;
        let mut i: usize = 0;
        while i < ms.len()
            invariant
                i <= ms.len(),
                ms == data.project.milestones,
                report_wf(*data),
                out@ == start + lines_of(ms@.take(i as int), |m: MilestoneStatus| md_milestone(m)),
            decreases ms.len() - i,
        {
            proof {
                assert(data.project.milestones@[i as int] == ms@[i as int]);
            }
            push_milestone(out, &ms[i]);
            proof {
                assert(ms@.take(i + 1).drop_last() =~= ms@.take(i as int));
                assert(out@ =~= start + lines_of(
                    ms@.take(i + 1),
                    |m: MilestoneStatus| md_milestone(m),
                ));
            }
            i = i + 1;
        }
        proof {
            assert(ms@.take(i as int) =~= ms@);
        }
        text::push_str(out, "\n");
    }
    proof {
        assert(final(out)@ =~= old(out)@ + md_milestones(data.project.milestones@));
    }
}

fn push_page2(out: &mut String, data: &ReportData, nums: &NumberTexts)
    requires
        report_wf(*data),
        texts_fit(*data, *nums),
    ensures
        final(out)@ == old(out)@ + md_page2(*data, *nums),
{
    push_status_header(out, data, nums.percent_elapsed.as_str());
    push_cscis(out, data, &nums.cscis);
    push_dependencies(out, data);
    push_documents(out, data);
    push_milestones(out, data);
    text::push_str(out, MD_GLOSSARY);
    proof {
        assert(final(out)@ =~= old(out)@ + md_page2(*data, *nums));
    }
}

/// Renders a report as Markdown, with the texts of its floating-point
/// quantities as given.
pub fn render(data: &ReportData, nums: &NumberTexts) -> (r: String)
    requires
        report_wf(*data),
        texts_fit(*data, *nums),
    ensures
        r@ == md_report(*data, *nums),
{
    let mut out = String::new();
    push_page1(&mut out, data, nums);
    text::push_str(&mut out, "\n---\n\n");
    push_page2(&mut out, data, nums);
    proof {
        assert(out@ =~= md_report(*data, *nums));
    }
    out
}

/// The CSCI blocks hold the tier counts of each CSCI.
proof fn lemma_md_csci_lines_tiers(cs: Seq<CsciStatus>, ts: Seq<CsciTexts>, k: int)
    requires
        0 <= k < cs.len(),
    ensures
        contains_text(md_csci_lines(cs, ts), md_csci_tiers(cs[k])),
    decreases cs.len(),
{
    let n = cs.len() - 1;
    let prev = md_csci_lines(cs.drop_last(), ts.drop_last());
    let head = md_csci_head(cs.last(), ts[n]);
    let proj = md_csci_projection(cs.last());
    if k == n {
        lemma_contains_part(prev + head, md_csci_tiers(cs.last()), proj);
        assert(prev + head + md_csci_tiers(cs.last()) + proj =~= md_csci_lines(cs, ts));
    } else {
        assert(cs.drop_last()[k] == cs[k]);
        lemma_md_csci_lines_tiers(cs.drop_last(), ts.drop_last(), k);
        lemma_contains_around(Seq::empty(), prev, md_csci(cs.last(), ts[n]), md_csci_tiers(cs[k]));
        assert(Seq::<char>::empty() + prev + md_csci(cs.last(), ts[n]) =~= md_csci_lines(cs, ts));
    }
}

/// The Markdown report shows, for each CSCI, its Tier 1 count and then its
/// Tier 2 count, each out of its total tickets.
pub proof fn lemma_md_report_shows_tiers(data: ReportData, nums: NumberTexts, k: int)
    requires
        0 <= k < data.project.cscis.len(),
    ensures
        contains_text(
            md_report(data, nums),
            "- **Tier 1** (integration-ready): "@ + decimal(
                data.project.cscis@[k].tier1_complete as nat,
            ) + "/"@ + decimal(data.project.cscis@[k].total_tickets as nat)
                + " tickets\n- **Tier 2** (HIL-passed): "@ + decimal(
                data.project.cscis@[k].tier2_complete as nat,
            ) + "/"@ + decimal(data.project.cscis@[k].total_tickets as nat) + " tickets\n"@,
        ),
{
    let c = data.project.cscis@[k];
    let p = md_csci_tiers(c);
    let lines = md_csci_lines(data.project.cscis@, nums.cscis@);
    lemma_md_csci_lines_tiers(data.project.cscis@, nums.cscis@, k);
    let head = md_status_header(data, nums.percent_elapsed@);
    let rest = md_dependencies(data.project.dependencies@) + md_documents(data.project.documents@)
        + md_milestones(data.project.milestones@) + MD_GLOSSARY@;
    lemma_contains_around(md_page1(data, nums) + "\n---\n\n"@ + head, lines, rest, p);
    assert(md_page1(data, nums) + "\n---\n\n"@ + head + lines + rest =~= md_report(data, nums));
}

/// The Markdown cells of a dependency row from its identity to its final
/// delivery date.
spec fn md_dependency_cells(d: DependencyStatus) -> Seq<char> {
    "| "@ + d.id@ + " | "@ + d.name@ + " | "@ + d.owner@ + " | "@ + (if d.rc_received {
        "✓"@
    } else {
        dependency_symbol(d.status)
    }) + " "@ + date_text(d.rc_due.day as int) + " | "@ + (if d.final_received {
        "✓"@
    } else {
        "○"@
    }) + " "@ + date_text(d.final_due.day as int) + " | "@
}

/// The dependencies section holds each dependency's cells.
proof fn lemma_md_dependencies_cells(ds: Seq<DependencyStatus>, k: int)
    requires
        0 <= k < ds.len(),
    ensures
        contains_text(md_dependencies(ds), md_dependency_cells(ds[k])),
{
    let d = ds[k];
    let p = md_dependency_cells(d);
    let tail = (if dependency_at_risk(d.status) {
        "⚠ At Risk"@
    } else {
        Seq::empty()
    }) + " |\n"@;
    lemma_contains_part(Seq::empty(), p, tail);
    assert(Seq::<char>::empty() + p + tail =~= md_dependency(d));
    let f = |x: DependencyStatus| md_dependency(x);
    lemma_lines_of_contains(ds, f, k, p);
    let lines = lines_of(ds, f);
    reveal(md_dependencies);
    let pre = "## External Dependencies\n\n"@
        + "| ID | Name | Owner | RC | Final | Status |\n|----|------|-------|-----|-------|--------|\n"@;
    lemma_contains_around(pre, lines, "\n"@, p);
    assert(pre + lines + "\n"@ =~= md_dependencies(ds));
}

/// The Markdown report shows, in each dependency's row, the release
/// candidate cell (✓ when received, else the status symbol) with its due
/// date, then the final cell (✓ when the final version is received, else ○)
/// with its due date.
pub proof fn lemma_md_report_shows_dependency(data: ReportData, nums: NumberTexts, k: int)
    requires
        0 <= k < data.project.dependencies.len(),
    ensures
        contains_text(
            md_report(data, nums),
            "| "@ + data.project.dependencies@[k].id@ + " | "@ + data.project.dependencies@[k].name@
                + " | "@ + data.project.dependencies@[k].owner@ + " | "@ + (if data.project.dependencies@[k].rc_received {
                "✓"@
            } else {
                dependency_symbol(data.project.dependencies@[k].status)
            }) + " "@ + date_text(data.project.dependencies@[k].rc_due.day as int) + " | "@
                + (if data.project.dependencies@[k].final_received {
                "✓"@
            } else {
                "○"@
            }) + " "@ + date_text(data.project.dependencies@[k].final_due.day as int) + " | "@,
        ),
{
    let ds = data.project.dependencies@;
    let p = md_dependency_cells(ds[k]);
    lemma_md_dependencies_cells(ds, k);
    let before = md_page1(data, nums) + "\n---\n\n"@ + md_status_header(
        data,
        nums.percent_elapsed@,
    ) + md_csci_lines(data.project.cscis@, nums.cscis@);
    let after = md_documents(data.project.documents@) + md_milestones(data.project.milestones@)
        + MD_GLOSSARY@;
    lemma_contains_around(before, md_dependencies(ds), after, p);
    assert(before + md_dependencies(ds) + after =~= md_report(data, nums));
}

} // verus!

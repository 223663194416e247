//! Report data: the computed metrics a weekly report shows.
//!
//! Quantities the report computes in floating point (velocity averages,
//! capacities, percentages) are carried as the bit patterns of IEEE-754
//! binary64 values; the library does not compute with them.

use vstd::prelude::*;
use crate::calendar::{Date, Timestamp};

verus! {

/// Complete report data for a week.
#[derive(Debug, Clone)]
pub struct ReportData {
    /// Report metadata.
    pub meta: ReportMeta,
    /// Weekly summary (page 1).
    pub weekly: WeeklySummary,
    /// Project status (page 2).
    pub project: ProjectStatus,
}

/// Report metadata.
#[derive(Debug, Clone)]
pub struct ReportMeta {
    /// Project name.
    pub project_name: String,
    /// ISO week being reported (e.g., "2026-W02").
    pub week: String,
    /// Monday of the week.
    pub week_start: Date,
    /// Sunday of the week.
    pub week_end: Date,
    /// When the report was generated.
    pub generated_at: Timestamp,
}

/// Weekly summary data (page 1).
#[derive(Debug, Clone)]
pub struct WeeklySummary {
    /// Deliveries completed this week.
    pub deliveries: Vec<DeliveryItem>,
    /// Ticket statistics.
    pub tickets: TicketSummary,
    /// Backlog changes.
    pub backlog: BacklogChange,
    /// Capacity factors (leave, etc.).
    pub capacity: CapacitySummary,
    /// Blocked tickets.
    pub blocked: Vec<BlockedTicket>,
    /// Non-project time sinks.
    pub distractions: Vec<DistractionSummary>,
}

/// A delivered item.
#[derive(Debug, Clone)]
pub struct DeliveryItem {
    /// Item ID.
    pub id: String,
    /// Item name/description.
    pub name: String,
    /// Type of delivery.
    pub kind: DeliveryKind,
    /// Whether it was previously blocked.
    pub was_blocked: bool,
}

/// What kind of item was delivered.
#[derive(Debug, Clone, Copy, PartialEq, Eq, Structural)]
pub enum DeliveryKind {
    Document,
    Csci,
    Dependency,
    Milestone,
    Release,
}

/// Ticket statistics for the week.
#[derive(Debug, Clone)]
pub struct TicketSummary {
    /// Tickets closed this week.
    pub closed: u32,
    /// Tickets closed last week.
    pub closed_prev: u32,
    /// Tickets opened this week.
    pub opened: u32,
    /// Net change (closed - opened).
    pub net: i32,
    /// Points delivered this week.
    pub points_delivered: u32,
    /// Rolling average velocity over four weeks (binary64 bit pattern).
    pub velocity_avg_bits: u64,
}

/// The trend symbol for closed tickets: up, down or level.
pub open spec fn trend_spec(closed: u32, closed_prev: u32) -> Seq<char> {
    if closed > closed_prev {
        "▲"@
    } else if closed < closed_prev {
        "▼"@
    } else {
        "─"@
    }
}

impl TicketSummary {
    /// Trend indicator for closed tickets compared with the previous week.
    pub fn closed_trend(&self) -> (r: &'static str)
        ensures
            r@ == trend_spec(self.closed, self.closed_prev),
    {
        if self.closed > self.closed_prev {
            "▲"
        } else if self.closed < self.closed_prev {
            "▼"
        } else {
            "─"
        }
    }
}

/// Backlog changes.
#[derive(Debug, Clone)]
pub struct BacklogChange {
    /// Backlog size at start of week.
    pub start: u32,
    /// Backlog size at end of week.
    pub end: u32,
    /// New work added.
    pub new_work: u32,
    /// Description of new work.
    pub new_work_note: Option<String>,
}

/// The `i32` a `u32` becomes under `as` (wrapping above `i32::MAX`).
pub open spec fn wrap_i32(x: u32) -> int {
    if x <= i32::MAX {
        x as int
    } else {
        x - 0x1_0000_0000
    }
}

impl BacklogChange {
    /// Net change in backlog (end minus start, each read as `i32`).
    pub fn net(&self) -> (r: i32)
        requires
            i32::MIN <= wrap_i32(self.end) - wrap_i32(self.start) <= i32::MAX,
        ensures
            r == wrap_i32(self.end) - wrap_i32(self.start),
    {
        let end: u32 = self.end;
        let start: u32 = self.start;
        let e = end as i32;
        let s = start as i32;
        proof {
            assert(e == (if end <= 0x7fff_ffff { end as int } else { end - 0x1_0000_0000 }))
                by (bit_vector)
                requires
                    e == end as i32,
            ;
            assert(s == (if start <= 0x7fff_ffff { start as int } else { start - 0x1_0000_0000 }))
                by (bit_vector)
                requires
                    s == start as i32,
            ;
        }
        e - s
    }
}

/// Capacity summary for the week.
#[derive(Debug, Clone)]
pub struct CapacitySummary {
    /// Nominal team capacity without leave (binary64 bit pattern).
    pub nominal_bits: u64,
    /// Actual capacity after leave (binary64 bit pattern).
    pub actual_bits: u64,
    /// Leave entries affecting this week.
    pub leave: Vec<LeaveEntry>,
    /// Expected velocity given capacity.
    pub expected_velocity: u32,
    /// Actual velocity achieved.
    pub actual_velocity: u32,
}

/// A leave entry.
#[derive(Debug, Clone)]
pub struct LeaveEntry {
    /// Team member name.
    pub name: String,
    /// Capacity during the week (percentage of normal).
    pub capacity_percent: u32,
    /// Reason, if given.
    pub reason: Option<String>,
}

/// A blocked ticket.
#[derive(Debug, Clone)]
pub struct BlockedTicket {
    /// Repository (`org/repo`).
    pub repo: String,
    /// Issue number.
    pub number: u64,
    /// Issue title.
    pub title: String,
    /// What it is blocked on.
    pub blocked_on: String,
}

/// Summary of non-project work.
#[derive(Debug, Clone)]
pub struct DistractionSummary {
    /// Name of the distraction category.
    pub name: String,
    /// Number of tickets worked on.
    pub ticket_count: u32,
    /// Estimated hours, if available (binary64 bit pattern).
    pub estimated_hours_bits: Option<u64>,
    /// Who worked on it.
    pub assignees: Vec<String>,
}

/// Project status data (page 2).
#[derive(Debug, Clone)]
pub struct ProjectStatus {
    /// Project timeline.
    pub timeline: ProjectTimeline,
    /// CSCI completion status.
    pub cscis: Vec<CsciStatus>,
    /// External dependency status.
    pub dependencies: Vec<DependencyStatus>,
    /// Document status.
    pub documents: Vec<DocumentStatus>,
    /// Upcoming milestones.
    pub milestones: Vec<MilestoneStatus>,
}

/// Project timeline.
#[derive(Debug, Clone)]
pub struct ProjectTimeline {
    /// Days into the project.
    pub days_elapsed: i64,
    /// Total project days.
    pub total_days: i64,
    /// Percentage elapsed (binary64 bit pattern).
    pub percent_elapsed_bits: u64,
}

/// CSCI completion status.
#[derive(Debug, Clone)]
pub struct CsciStatus {
    /// CSCI ID.
    pub id: String,
    /// CSCI name.
    pub name: String,
    /// Target date.
    pub target_date: Date,
    /// Days until the target date.
    pub days_until: i64,
    /// Tickets of this CSCI.
    pub total_tickets: u32,
    /// Tier 1 (integration-ready) tickets.
    pub tier1_complete: u32,
    /// Tier 2 (HIL-passed) tickets.
    pub tier2_complete: u32,
    /// Completion percentage adjusted for backlog completeness (binary64 bit pattern).
    pub completion_percent_bits: u64,
    /// Projection.
    pub projection: Projection,
    /// Buffer days (positive ahead, negative behind).
    pub buffer_days: i64,
}

/// Projection of a deliverable.
#[derive(Debug, Clone, Copy, PartialEq, Eq, Structural)]
pub enum Projection {
    OnTrack,
    AtRisk,
    Behind,
    Complete,
}

/// Human-readable text of a projection.
pub open spec fn projection_text(p: Projection) -> Seq<char> {
    match p {
        Projection::OnTrack => "On track"@,
        Projection::AtRisk => "At risk"@,
        Projection::Behind => "Behind"@,
        Projection::Complete => "Complete"@,
    }
}

/// Symbol of a projection.
pub open spec fn projection_symbol(p: Projection) -> Seq<char> {
    match p {
        Projection::OnTrack => "✓"@,
        Projection::AtRisk => "⚠"@,
        Projection::Behind => "✗"@,
        Projection::Complete => "✓"@,
    }
}

impl Projection {
    /// Human-readable projection.
    pub fn as_str(&self) -> (r: &'static str)
        ensures
            r@ == projection_text(*self),
    {
        match self {
            Projection::OnTrack => "On track",
            Projection::AtRisk => "At risk",
            Projection::Behind => "Behind",
            Projection::Complete => "Complete",
        }
    }

    /// Symbol for compact display.
    pub fn symbol(&self) -> (r: &'static str)
        ensures
            r@ == projection_symbol(*self),
    {
        match self {
            Projection::OnTrack => "✓",
            Projection::AtRisk => "⚠",
            Projection::Behind => "✗",
            Projection::Complete => "✓",
        }
    }
}

/// External dependency status in the report.
#[derive(Debug, Clone)]
pub struct DependencyStatus {
    /// Dependency ID.
    pub id: String,
    /// Dependency name.
    pub name: String,
    /// Owner team.
    pub owner: String,
    /// Release-candidate due date.
    pub rc_due: Date,
    /// Final due date.
    pub final_due: Date,
    /// Release candidate received.
    pub rc_received: bool,
    /// Final version received.
    pub final_received: bool,
    /// Status.
    pub status: DependencyStatusKind,
}

/// Status of an external dependency in the report.
#[derive(Debug, Clone, Copy, PartialEq, Eq, Structural)]
pub enum DependencyStatusKind {
    Pending,
    RcOverdue,
    RcReceived,
    FinalOverdue,
    Complete,
}

/// Symbol of a dependency status.
pub open spec fn dependency_symbol(k: DependencyStatusKind) -> Seq<char> {
    match k {
        DependencyStatusKind::Pending => "○"@,
        DependencyStatusKind::RcOverdue => "✗"@,
        DependencyStatusKind::RcReceived => "◐"@,
        DependencyStatusKind::FinalOverdue => "✗"@,
        DependencyStatusKind::Complete => "✓"@,
    }
}

/// A dependency status that is a problem: release candidate or final overdue.
pub open spec fn dependency_at_risk(k: DependencyStatusKind) -> bool {
    k == DependencyStatusKind::RcOverdue || k == DependencyStatusKind::FinalOverdue
}

impl DependencyStatusKind {
    /// Symbol for compact display.
    pub fn symbol(&self) -> (r: &'static str)
        ensures
            r@ == dependency_symbol(*self),
    {
        match self {
            DependencyStatusKind::Pending => "○",
            DependencyStatusKind::RcOverdue => "✗",
            DependencyStatusKind::RcReceived => "◐",
            DependencyStatusKind::FinalOverdue => "✗",
            DependencyStatusKind::Complete => "✓",
        }
    }

    /// Whether the status is a problem (release candidate or final overdue).
    pub fn is_at_risk(&self) -> (r: bool)
        ensures
            r == dependency_at_risk(*self),
    {
        match self {
            DependencyStatusKind::RcOverdue | DependencyStatusKind::FinalOverdue => true,
            _ => false,
        }
    }
}

/// Document status in the report.
#[derive(Debug, Clone)]
pub struct DocumentStatus {
    /// Document ID.
    pub id: String,
    /// Document name.
    pub name: String,
    /// Due date.
    pub due_date: Date,
    /// Status.
    pub status: DocumentStatusKind,
    /// Completion date when complete.
    pub completed_date: Option<Date>,
    /// Progress note.
    pub note: Option<String>,
}

/// Status of a document.
#[derive(Debug, Clone, Copy, PartialEq, Eq, Structural)]
pub enum DocumentStatusKind {
    NotStarted,
    InProgress,
    Complete,
    Overdue,
}

/// Symbol of a document status.
pub open spec fn document_symbol(k: DocumentStatusKind) -> Seq<char> {
    match k {
        DocumentStatusKind::NotStarted => "○"@,
        DocumentStatusKind::InProgress => "◐"@,
        DocumentStatusKind::Complete => "✓"@,
        DocumentStatusKind::Overdue => "✗"@,
    }
}

impl DocumentStatusKind {
    /// Symbol for compact display.
    pub fn symbol(&self) -> (r: &'static str)
        ensures
            r@ == document_symbol(*self),
    {
        match self {
            DocumentStatusKind::NotStarted => "○",
            DocumentStatusKind::InProgress => "◐",
            DocumentStatusKind::Complete => "✓",
            DocumentStatusKind::Overdue => "✗",
        }
    }
}

/// Milestone status in the report.
#[derive(Debug, Clone)]
pub struct MilestoneStatus {
    /// Milestone ID.
    pub id: String,
    /// Milestone name.
    pub name: String,
    /// Date.
    pub date: Date,
    /// Days until the milestone.
    pub days_until: i64,
}

/// Builder for [`ReportData`].
#[derive(Debug)]
pub struct ReportBuilder {
    pub meta: Option<ReportMeta>,
    pub weekly: Option<WeeklySummary>,
    pub project: Option<ProjectStatus>,
}

/// What a report still lacks when it is built.
#[derive(Debug, Clone, Copy, PartialEq, Eq, Structural)]
pub enum BuildError {
    /// No report metadata was given.
    MissingMeta,
    /// No weekly summary was given.
    MissingWeekly,
    /// No project status was given.
    MissingProject,
}

impl BuildError {
    /// Human-readable description of the error.
    pub fn message(&self) -> (r: &'static str)
        ensures
            r@ == match *self {
                BuildError::MissingMeta => "Missing report meta"@,
                BuildError::MissingWeekly => "Missing weekly summary"@,
                BuildError::MissingProject => "Missing project status"@,
            },
    {
        match self {
            BuildError::MissingMeta => "Missing report meta",
            BuildError::MissingWeekly => "Missing weekly summary",
            BuildError::MissingProject => "Missing project status",
        }
    }
}

impl Default for ReportBuilder {
    fn default() -> (r: Self)
        ensures
            r.meta is None && r.weekly is None && r.project is None,
    {
        ReportBuilder { meta: None, weekly: None, project: None }
    }
}

impl ReportBuilder {
    /// A builder with nothing set.
    pub fn new() -> (r: Self)
        ensures
            r.meta is None && r.weekly is None && r.project is None,
    {
        ReportBuilder { meta: None, weekly: None, project: None }
    }

    /// Sets the metadata.
    pub fn meta(self, meta: ReportMeta) -> (r: Self)
        ensures
            r.meta == Some(meta),
            r.weekly == self.weekly,
            r.project == self.project,
    {
        ReportBuilder { meta: Some(meta), weekly: self.weekly, project: self.project }
    }

    /// Sets the weekly summary.
    pub fn weekly(self, weekly: WeeklySummary) -> (r: Self)
        ensures
            r.meta == self.meta,
            r.weekly == Some(weekly),
            r.project == self.project,
    {
        ReportBuilder { meta: self.meta, weekly: Some(weekly), project: self.project }
    }

    /// Sets the project status.
    pub fn project(self, project: ProjectStatus) -> (r: Self)
        ensures
            r.meta == self.meta,
            r.weekly == self.weekly,
            r.project == Some(project),
    {
        ReportBuilder { meta: self.meta, weekly: self.weekly, project: Some(project) }
    }

    /// The report, when metadata, weekly summary and project status are all
    /// set; otherwise the first missing part (in that order).
    pub fn build(self) -> (r: Result<ReportData, BuildError>)
        ensures
            match (self.meta, self.weekly, self.project) {
                (Some(m), Some(w), Some(p)) => r == Ok::<ReportData, BuildError>(
                    ReportData { meta: m, weekly: w, project: p },
                ),
                (None, _, _) => r == Err::<ReportData, BuildError>(BuildError::MissingMeta),
                (Some(_), None, _) => r == Err::<ReportData, BuildError>(
                    BuildError::MissingWeekly,
                ),
                (Some(_), Some(_), None) => r == Err::<ReportData, BuildError>(
                    BuildError::MissingProject,
                ),
            },
    {
        let meta = match self.meta {
            Some(m) => m,
            None => {
                return Err(BuildError::MissingMeta);
            },
        };
        let weekly = match self.weekly {
            Some(w) => w,
            None => {
                return Err(BuildError::MissingWeekly);
            },
        };
        let project = match self.project {
            Some(p) => p,
            None => {
                return Err(BuildError::MissingProject);
            },
        };
        Ok(ReportData { meta, weekly, project })
    }
}

} // verus!

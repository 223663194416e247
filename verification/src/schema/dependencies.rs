//! External dependencies on other teams and projects, with release-candidate
//! and final due dates.

use vstd::prelude::*;
use vstd::string::StrSliceExecFns;
use crate::calendar::{day_in_range, Date};
use crate::text;

verus! {

/// External dependencies and prerequisites.
#[derive(Debug, Clone)]
pub struct Dependencies {
    /// Dependencies on other teams or projects.
    pub external: Vec<ExternalDependency>,
}

/// A dependency on another team or project.
#[derive(Debug, Clone)]
pub struct ExternalDependency {
    /// Human-readable name.
    pub name: String,
    /// Unique identifier (e.g., "ICD-001").
    pub id: String,
    /// Team or entity responsible for the dependency.
    pub owner: String,
    /// Due date of the release candidate.
    pub rc_due: Date,
    /// Due date of the final version.
    pub final_due: Date,
    /// GitHub issue tracking the dependency (`org/repo#number`), if any.
    pub tracking_issue: Option<String>,
}

/// Status of an external dependency.
#[derive(Debug, Clone, Copy, PartialEq, Eq, Structural)]
pub enum DependencyStatus {
    /// Waiting for the release candidate, not yet due.
    Pending,
    /// The release candidate's due date has passed without receipt.
    RcOverdue,
    /// Release candidate received, waiting for the final version.
    RcReceived,
    /// The final version's due date has passed without receipt.
    FinalOverdue,
    /// Final version received.
    Complete,
}

/// The release candidate is overdue on `as_of` (strictly after its due date).
pub open spec fn rc_overdue(d: ExternalDependency, as_of: Date) -> bool {
    as_of.day > d.rc_due.day
}

/// The final version is overdue on `as_of` (strictly after its due date).
pub open spec fn final_overdue(d: ExternalDependency, as_of: Date) -> bool {
    as_of.day > d.final_due.day
}

/// The status of a dependency from what has been received and what is overdue.
pub open spec fn status_spec(
    d: ExternalDependency,
    as_of: Date,
    rc_received: bool,
    final_received: bool,
) -> DependencyStatus {
    if final_received {
        DependencyStatus::Complete
    } else if rc_received {
        if final_overdue(d, as_of) {
            DependencyStatus::FinalOverdue
        } else {
            DependencyStatus::RcReceived
        }
    } else if rc_overdue(d, as_of) {
        DependencyStatus::RcOverdue
    } else {
        DependencyStatus::Pending
    }
}

/// A status that is a problem: release candidate or final version overdue.
pub open spec fn is_at_risk_spec(s: DependencyStatus) -> bool {
    s == DependencyStatus::RcOverdue || s == DependencyStatus::FinalOverdue
}

/// Dependencies whose release candidate or final version is overdue, in order.
pub open spec fn overdue_spec(s: Seq<ExternalDependency>, as_of: Date) -> Seq<ExternalDependency> {
    s.filter(|d: ExternalDependency| rc_overdue(d, as_of) || final_overdue(d, as_of))
}

/// Dependencies whose release candidate is due within `lo..=hi`, in order.
pub open spec fn upcoming_rc_spec(s: Seq<ExternalDependency>, lo: int, hi: int) -> Seq<
    ExternalDependency,
> {
    s.filter(|d: ExternalDependency| lo <= d.rc_due.day && d.rc_due.day <= hi)
}

/// Dependencies whose final version is due within `lo..=hi`, in order.
pub open spec fn upcoming_final_spec(s: Seq<ExternalDependency>, lo: int, hi: int) -> Seq<
    ExternalDependency,
> {
    s.filter(|d: ExternalDependency| lo <= d.final_due.day && d.final_due.day <= hi)
}

/// What parsing a tracking reference `org/repo#number` gives: split at the
/// first `#`, the rest parsed as a `u32`, the part before split at the first `/`.
pub open spec fn parse_tracking_spec(t: Seq<char>) -> Option<(Seq<char>, Seq<char>, u32)> {
    match text::split_once(t, '#') {
        None => None,
        Some((path, num)) => match text::parse_u32_spec(num) {
            None => None,
            Some(n) => match text::split_once(path, '/') {
                None => None,
                Some((org, repo)) => Some((org, repo, n)),
            },
        },
    }
}

/// Keeps the dependencies satisfying `keep`, as references, in order.
fn filter_refs<'a>(
    deps: &'a Vec<ExternalDependency>,
    as_of: Date,
    lo: i64,
    hi: i64,
    mode: u8,
) -> (r: Vec<&'a ExternalDependency>)
    ensures
        r.len() == deps@.filter(|d: ExternalDependency| keep_spec(d, as_of, lo, hi, mode)).len(),
        forall|i: int|
            0 <= i < r.len() ==> *(#[trigger] r@[i]) == deps@.filter(
                |d: ExternalDependency| keep_spec(d, as_of, lo, hi, mode),
            )[i],
{
    let ghost p = |d: ExternalDependency| keep_spec(d, as_of, lo, hi, mode);
    let mut out: Vec<&ExternalDependency> = Vec::new();
    let mut i: usize = 0;
    while i < deps.len()
        invariant
            i <= deps.len(),
            p == (|d: ExternalDependency| keep_spec(d, as_of, lo, hi, mode)),
            out.len() == deps@.take(i as int).filter(p).len(),
            forall|j: int|
                0 <= j < out.len() ==> *(#[trigger] out@[j]) == deps@.take(i as int).filter(p)[j],
        decreases deps.len() - i,
    {
        let d = &deps[i];
        proof {
            assert(deps@.take(i + 1) =~= deps@.take(i as int).push(*d));
            deps@.take(i as int).lemma_filter_push(*d, p);
        }
        let keep = if mode == 0 {
            as_of.day > d.rc_due.day || as_of.day > d.final_due.day
        } else if mode == 1 {
            d.rc_due.day as i64 >= lo && d.rc_due.day as i64 <= hi
        } else {
            d.final_due.day as i64 >= lo && d.final_due.day as i64 <= hi
        };
        if keep {
            out.push(d);
        }
        i = i + 1;
    }
    assert(deps@.take(i as int) =~= deps@);
    out
}

/// The filter `filter_refs` applies: overdue (0), release candidate due in
/// `lo..=hi` (1), final version due in `lo..=hi` (otherwise).
pub open spec fn keep_spec(d: ExternalDependency, as_of: Date, lo: i64, hi: i64, mode: u8) -> bool {
    if mode == 0 {
        rc_overdue(d, as_of) || final_overdue(d, as_of)
    } else if mode == 1 {
        lo <= d.rc_due.day && d.rc_due.day <= hi
    } else {
        lo <= d.final_due.day && d.final_due.day <= hi
    }
}

impl Dependencies {
    /// Dependencies whose release candidate or final version is overdue.
    pub fn overdue(&self, as_of: Date) -> (r: Vec<&ExternalDependency>)
        ensures
            r.len() == overdue_spec(self.external@, as_of).len(),
            forall|i: int|
                0 <= i < r.len() ==> *(#[trigger] r@[i]) == overdue_spec(self.external@, as_of)[i],
    {
        let r = filter_refs(&self.external, as_of, 0, 0, 0);
        assert((|d: ExternalDependency| keep_spec(d, as_of, 0, 0, 0)) =~= (|d: ExternalDependency|
            rc_overdue(d, as_of) || final_overdue(d, as_of)));
        r
    }

    /// Dependencies whose release candidate is due from `as_of` to
    /// `within_days` days later (both included).
    pub fn upcoming_rc(&self, as_of: Date, within_days: i64) -> (r: Vec<&ExternalDependency>)
        requires
            day_in_range(as_of.day + within_days),
        ensures
            r.len() == upcoming_rc_spec(
                self.external@,
                as_of.day as int,
                as_of.day + within_days,
            ).len(),
            forall|i: int|
                0 <= i < r.len() ==> *(#[trigger] r@[i]) == upcoming_rc_spec(
                    self.external@,
                    as_of.day as int,
                    as_of.day + within_days,
                )[i],
    {
        let cutoff = as_of.add_days(within_days);
        let r = filter_refs(&self.external, as_of, as_of.day as i64, cutoff.day as i64, 1);
        assert((|d: ExternalDependency|
            keep_spec(d, as_of, as_of.day as i64, cutoff.day as i64, 1)) =~= (|
            d: ExternalDependency,
        |
            as_of.day <= d.rc_due.day && d.rc_due.day <= as_of.day + within_days));
        r
    }

    /// Dependencies whose final version is due from `as_of` to `within_days`
    /// days later (both included).
    pub fn upcoming_final(&self, as_of: Date, within_days: i64) -> (r: Vec<&ExternalDependency>)
        requires
            day_in_range(as_of.day + within_days),
        ensures
            r.len() == upcoming_final_spec(
                self.external@,
                as_of.day as int,
                as_of.day + within_days,
            ).len(),
            forall|i: int|
                0 <= i < r.len() ==> *(#[trigger] r@[i]) == upcoming_final_spec(
                    self.external@,
                    as_of.day as int,
                    as_of.day + within_days,
                )[i],
    {
        let cutoff = as_of.add_days(within_days);
        let r = filter_refs(&self.external, as_of, as_of.day as i64, cutoff.day as i64, 2);
        assert((|d: ExternalDependency|
            keep_spec(d, as_of, as_of.day as i64, cutoff.day as i64, 2)) =~= (|
            d: ExternalDependency,
        |
            as_of.day <= d.final_due.day && d.final_due.day <= as_of.day + within_days));
        r
    }

    /// The first dependency with ID `id`.
    pub fn by_id(&self, id: &str) -> (r: Option<&ExternalDependency>)
        ensures
            r is None ==> forall|i: int|
                0 <= i < self.external.len() ==> (#[trigger] self.external@[i]).id@ != id@,
            r matches Some(x) ==> exists|i: int|
                0 <= i < self.external.len() && self.external@[i] == *x && x.id@ == id@
                    && forall|j: int|
                    0 <= j < i ==> (#[trigger] self.external@[j]).id@ != id@,
    {
        let mut i: usize = 0;
        while i < self.external.len()
            invariant
                i <= self.external.len(),
                forall|j: int| 0 <= j < i ==> (#[trigger] self.external@[j]).id@ != id@,
            decreases self.external.len() - i,
        {
            if text::str_eq(self.external[i].id.as_str(), id) {
                return Some(&self.external[i]);
            }
            i = i + 1;
        }
        None
    }
}

impl ExternalDependency {
    /// Whether the release candidate is overdue on `as_of`.
    pub fn is_rc_overdue(&self, as_of: Date) -> (r: bool)
        ensures
            r == rc_overdue(*self, as_of),
    {
        as_of.day > self.rc_due.day
    }

    /// Whether the final version is overdue on `as_of`.
    pub fn is_final_overdue(&self, as_of: Date) -> (r: bool)
        ensures
            r == final_overdue(*self, as_of),
    {
        as_of.day > self.final_due.day
    }

    /// Days until the release candidate is due (negative when overdue).
    pub fn days_until_rc(&self, as_of: Date) -> (r: i64)
        ensures
            r == self.rc_due.day - as_of.day,
    {
        self.rc_due.days_since(as_of)
    }

    /// Days until the final version is due (negative when overdue).
    pub fn days_until_final(&self, as_of: Date) -> (r: i64)
        ensures
            r == self.final_due.day - as_of.day,
    {
        self.final_due.days_since(as_of)
    }

    /// The dependency's status: complete once the final version is received;
    /// with only the release candidate, final-overdue or RC-received; with
    /// nothing, RC-overdue or pending.
    pub fn status(&self, as_of: Date, rc_received: bool, final_received: bool) -> (r:
        DependencyStatus)
        ensures
            r == status_spec(*self, as_of, rc_received, final_received),
    {
        if final_received {
            DependencyStatus::Complete
        } else if rc_received {
            if self.is_final_overdue(as_of) {
                DependencyStatus::FinalOverdue
            } else {
                DependencyStatus::RcReceived
            }
        } else if self.is_rc_overdue(as_of) {
            DependencyStatus::RcOverdue
        } else {
            DependencyStatus::Pending
        }
    }

    /// The tracking issue as `(org, repo, number)`, when it is present and of
    /// the form `org/repo#number`.
    #[verifier::rlimit(60)]
    pub fn parse_tracking_issue(&self) -> (r: Option<(&str, &str, u32)>)
        ensures
            r is Some <==> (self.tracking_issue is Some && parse_tracking_spec(
                self.tracking_issue->0@,
            ) is Some),
            r matches Some(p) ==> parse_tracking_spec(self.tracking_issue->0@) == Some(
                (p.0@, p.1@, p.2),
            ),
    {
        let issue = match &self.tracking_issue {
            Some(t) => t.as_str(),
            None => {
                return None;
            },
        };
        let v = text::chars_of(issue);
        let hash = match text::find_char(&v, '#') {
            Some(k) => k,
            None => {
                return None;
            },
        };
        let number = match text::parse_u32_at(&v, hash + 1, v.len()) {
            Some(n) => n,
            None => {
                proof {
                    lemma_tracking_parts(v@, hash as int);
                }
                return None;
            },
        };
        let slash = match find_char_before(&v, '/', hash) {
            Some(k) => k,
            None => {
                proof {
                    lemma_tracking_parts(v@, hash as int);
                }
                return None;
            },
        };
        proof {
            lemma_tracking_parts(v@, hash as int);
        }
        let org = issue.substring_char(0, slash);
        let repo = issue.substring_char(slash + 1, hash);
        assert(org@ =~= v@.subrange(0, hash as int).subrange(0, slash as int));
        assert(repo@ =~= v@.subrange(0, hash as int).subrange(slash + 1, hash as int));
        Some((org, repo, number))
    }
}

/// How `parse_tracking_spec` reads a text whose first `#` is at `hash`.
proof fn lemma_tracking_parts(t: Seq<char>, hash: int)
    requires
        0 <= hash < t.len(),
        text::contains_char(t, '#'),
        text::first_index(t, '#') == hash,
    ensures
        parse_tracking_spec(t) == match text::parse_u32_spec(t.subrange(hash + 1, t.len() as int)) {
            None => None,
            Some(n) => match text::split_once(t.subrange(0, hash), '/') {
                None => None,
                Some((org, repo)) => Some((org, repo, n)),
            },
        },
{
}

/// Index of the first `c` in `v[..end]`.
fn find_char_before(v: &Vec<char>, c: char, end: usize) -> (r: Option<usize>)
    requires
        end <= v.len(),
    ensures
        r is None <==> !text::contains_char(v@.subrange(0, end as int), c),
        r matches Some(i) ==> i < end && text::first_index(v@.subrange(0, end as int), c) == i,
{
    let ghost s = v@.subrange(0, end as int);
    let mut i: usize = 0;
    while i < end
        invariant
            i <= end <= v.len(),
            s == v@.subrange(0, end as int),
            forall|j: int| 0 <= j < i ==> s[j] != c,
        decreases end - i,
    {
        if v[i] == c {
            proof {
                text::lemma_first_index(s, c, i as int);
            }
            return Some(i);
        }
        i = i + 1;
    }
    None
}

impl DependencyStatus {
    /// Human-readable status.
    pub fn as_str(&self) -> (r: &'static str)
        ensures
            r@ == match *self {
                DependencyStatus::Pending => "Pending"@,
                DependencyStatus::RcOverdue => "RC Overdue"@,
                DependencyStatus::RcReceived => "RC Received"@,
                DependencyStatus::FinalOverdue => "Final Overdue"@,
                DependencyStatus::Complete => "Complete"@,
            },
    {
        match self {
            DependencyStatus::Pending => "Pending",
            DependencyStatus::RcOverdue => "RC Overdue",
            DependencyStatus::RcReceived => "RC Received",
            DependencyStatus::FinalOverdue => "Final Overdue",
            DependencyStatus::Complete => "Complete",
        }
    }

    /// Symbol for compact display.
    pub fn symbol(&self) -> (r: &'static str)
        ensures
            r@ == match *self {
                DependencyStatus::Pending => "○"@,
                DependencyStatus::RcOverdue => "✗"@,
                DependencyStatus::RcReceived => "◐"@,
                DependencyStatus::FinalOverdue => "✗"@,
                DependencyStatus::Complete => "✓"@,
            },
    {
        match self {
            DependencyStatus::Pending => "○",
            DependencyStatus::RcOverdue => "✗",
            DependencyStatus::RcReceived => "◐",
            DependencyStatus::FinalOverdue => "✗",
            DependencyStatus::Complete => "✓",
        }
    }

    /// Whether the status is a problem (release candidate or final overdue).
    pub fn is_at_risk(&self) -> (r: bool)
        ensures
            r == is_at_risk_spec(*self),
    {
        match self {
            DependencyStatus::RcOverdue | DependencyStatus::FinalOverdue => true,
            _ => false,
        }
    }
}

/// A received final version is always complete and never at risk; without
/// it, the status is at risk exactly when the outstanding delivery is overdue.
pub proof fn lemma_status_risk(
    d: ExternalDependency,
    as_of: Date,
    rc_received: bool,
    final_received: bool,
)
    ensures
        final_received ==> status_spec(d, as_of, rc_received, final_received)
            == DependencyStatus::Complete,
        is_at_risk_spec(status_spec(d, as_of, rc_received, final_received)) <==> (!final_received
            && ((rc_received && final_overdue(d, as_of)) || (!rc_received && rc_overdue(
            d,
            as_of,
        )))),
{
}

/// A tracking reference written as `org/repo#number` parses back to its
/// parts, when the organisation holds no `/` and neither name holds `#`.
pub proof fn lemma_tracking_roundtrip(org: Seq<char>, repo: Seq<char>, n: u32)
    requires
        !text::contains_char(org, '/'),
        !text::contains_char(org, '#'),
        !text::contains_char(repo, '#'),
    ensures
        parse_tracking_spec(org + seq!['/'] + repo + seq!['#'] + text::decimal(n as nat)) == Some(
            (org, repo, n),
        ),
{
    let path = org + seq!['/'] + repo;
    let num = text::decimal(n as nat);
    let s = org + seq!['/'] + repo + seq!['#'] + num;
    assert(s =~= path + seq!['#'] + num);
    assert(!text::contains_char(path, '#')) by {
        if text::contains_char(path, '#') {
            let j = choose|j: int| 0 <= j < path.len() && path[j] == '#';
            if j < org.len() {
                assert(org[j] == '#');
            } else if j > org.len() {
                assert(repo[j - org.len() - 1] == '#');
            }
        }
    }
    text::lemma_split_once_join(path, num, '#');
    assert(text::split_once(s, '#') == Some((path, num)));
    text::lemma_decimal(n as nat);
    assert(text::is_digit(num[0]));
    assert(text::unsigned_body(num) == num);
    assert(text::parse_u32_spec(num) == Some(n));
    text::lemma_split_once_join(org, repo, '/');
    assert(text::split_once(path, '/') == Some((org, repo)));
}

} // verus!

//! Team composition and planned leave.

use vstd::prelude::*;
use crate::calendar::Date;
use crate::text;

verus! {

/// Team members and planned leave periods.
#[derive(Debug, Clone)]
pub struct Team {
    /// Team members.
    pub members: Vec<TeamMember>,
    /// Planned leave periods.
    pub leave: Vec<Leave>,
}

/// A team member.
#[derive(Debug, Clone)]
pub struct TeamMember {
    /// Human-readable name.
    pub name: String,
    /// GitHub username.
    pub github: String,
    /// Capacity multiplier (1.0 = full time), carried as the bit pattern of an
    /// IEEE-754 binary64 value; the library does not compute with it.
    pub capacity_bits: u64,
}

/// Bit pattern of 1.0, the default capacity.
pub const DEFAULT_CAPACITY_BITS: u64 = 0x3FF0_0000_0000_0000;

/// A period of planned leave (both ends inclusive).
#[derive(Debug, Clone)]
pub struct Leave {
    /// GitHub username of the team member.
    pub github: String,
    /// First day of leave.
    pub start: Date,
    /// Last day of leave.
    pub end: Date,
    /// Optional reason.
    pub reason: Option<String>,
}

/// The leave period overlaps `start..=end`.
pub open spec fn leave_overlaps(l: Leave, start: Date, end: Date) -> bool {
    l.start.day <= end.day && l.end.day >= start.day
}

/// The leave periods that overlap `start..=end`, in order.
pub open spec fn leave_in_range_spec(leave: Seq<Leave>, start: Date, end: Date) -> Seq<Leave> {
    leave.filter(|l: Leave| leave_overlaps(l, start, end))
}

/// The member with GitHub username `github` is on leave on `date`.
pub open spec fn on_leave_spec(leave: Seq<Leave>, github: Seq<char>, date: Date) -> bool {
    exists|i: int|
        0 <= i < leave.len() && (#[trigger] leave[i]).github@ == github && leave[i].start.day
            <= date.day <= leave[i].end.day
}

impl Team {
    /// Whether the member with GitHub username `github` is on leave on `date`.
    pub fn is_on_leave(&self, github: &str, date: Date) -> (r: bool)
        ensures
            r == on_leave_spec(self.leave@, github@, date),
    {
        let mut i: usize = 0;
        while i < self.leave.len()
            invariant
                i <= self.leave.len(),
                forall|j: int|
                    0 <= j < i ==> !((#[trigger] self.leave@[j]).github@ == github@
                        && self.leave@[j].start.day <= date.day <= self.leave@[j].end.day),
            decreases self.leave.len() - i,
        {
            let l = &self.leave[i];
            if text::str_eq(l.github.as_str(), github) && date.day >= l.start.day && date.day
                <= l.end.day {
                return true;
            }
            i = i + 1;
        }
        false
    }

    /// The leave periods overlapping `start..=end`, in order.
    pub fn leave_in_range(&self, start: Date, end: Date) -> (r: Vec<&Leave>)
        ensures
            r.len() == leave_in_range_spec(self.leave@, start, end).len(),
            forall|i: int|
                0 <= i < r.len() ==> *(#[trigger] r@[i]) == leave_in_range_spec(
                    self.leave@,
                    start,
                    end,
                )[i],
    {
        let mut out: Vec<&Leave> = Vec::new();
        let mut i: usize = 0;
        while i < self.leave.len()
            invariant
                i <= self.leave.len(),
                out.len() == leave_in_range_spec(self.leave@.take(i as int), start, end).len(),
                forall|j: int|
                    0 <= j < out.len() ==> *(#[trigger] out@[j]) == leave_in_range_spec(
                        self.leave@.take(i as int),
                        start,
                        end,
                    )[j],
            decreases self.leave.len() - i,
        {
            let l = &self.leave[i];
            proof {
                assert(self.leave@.take(i + 1) =~= self.leave@.take(i as int).push(*l));
                self.leave@.take(i as int).lemma_filter_push(
                    *l,
                    |l: Leave| leave_overlaps(l, start, end),
                );
            }
            if l.end.day >= start.day && l.start.day <= end.day {
                out.push(l);
            }
            i = i + 1;
        }
        assert(self.leave@.take(self.leave.len() as int) =~= self.leave@);
        out
    }

    /// The first member with GitHub username `github`, if any.
    pub fn member_by_github(&self, github: &str) -> (r: Option<&TeamMember>)
        ensures
            r is None ==> forall|i: int|
                0 <= i < self.members.len() ==> (#[trigger] self.members@[i]).github@ != github@,
            r matches Some(m) ==> exists|i: int|
                0 <= i < self.members.len() && self.members@[i] == *m && m.github@ == github@
                    && forall|j: int|
                    0 <= j < i ==> (#[trigger] self.members@[j]).github@ != github@,
    {
        let mut i: usize = 0;
        while i < self.members.len()
            invariant
                i <= self.members.len(),
                forall|j: int| 0 <= j < i ==> (#[trigger] self.members@[j]).github@ != github@,
            decreases self.members.len() - i,
        {
            if text::str_eq(self.members[i].github.as_str(), github) {
                return Some(&self.members[i]);
            }
            i = i + 1;
        }
        None
    }

    /// Number of team members.
    pub fn headcount(&self) -> (r: usize)
        ensures
            r == self.members.len(),
    {
        self.members.len()
    }
}

impl Leave {
    /// Length of the leave in days, both ends included.
    pub fn duration_days(&self) -> (r: i64)
        ensures
            r == self.end.day - self.start.day + 1,
    {
        self.end.days_since(self.start) + 1
    }

    /// Whether the leave overlaps `start..=end`.
    pub fn overlaps(&self, start: Date, end: Date) -> (r: bool)
        ensures
            r == leave_overlaps(*self, start, end),
    {
        self.start.day <= end.day && self.end.day >= start.day
    }
}

/// A member is on leave on a date exactly when one of their leave periods is
/// among those overlapping that single day.
pub proof fn lemma_on_leave_iff_leave_on_day(leave: Seq<Leave>, github: Seq<char>, date: Date)
    ensures
        on_leave_spec(leave, github, date) <==> exists|k: int|
            0 <= k < leave_in_range_spec(leave, date, date).len() && (#[trigger] leave_in_range_spec(
                leave,
                date,
                date,
            )[k]).github@ == github,
{
    let p = |l: Leave| leave_overlaps(l, date, date);
    let f = leave.filter(p);
    broadcast use vstd::seq_lib::group_filter_ensures;

    if on_leave_spec(leave, github, date) {
        let i = choose|i: int|
            0 <= i < leave.len() && (#[trigger] leave[i]).github@ == github && leave[i].start.day
                <= date.day <= leave[i].end.day;
        assert(p(leave[i]));
        leave.lemma_filter_contains(p, i);
        let k = choose|k: int| 0 <= k < f.len() && f[k] == leave[i];
        assert(f[k].github@ == github);
    }
    if exists|k: int| 0 <= k < f.len() && (#[trigger] f[k]).github@ == github {
        let k = choose|k: int| 0 <= k < f.len() && (#[trigger] f[k]).github@ == github;
        leave.lemma_filter_pred(p, k);
        leave.lemma_filter_contains_rev(p, f[k]);
        let i = choose|i: int| 0 <= i < leave.len() && leave[i] == f[k];
        assert(leave[i].github@ == github);
    }
}

} // verus!

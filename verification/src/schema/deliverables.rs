//! Deliverables: documents, CSCIs (Computer Software Configuration Items) and
//! demonstrations, with their milestones.

use vstd::prelude::*;
use vstd::string::StrSliceExecFns;
use crate::calendar::{day_in_range, Date};
use crate::text;

verus! {

/// All project deliverables.
#[derive(Debug, Clone)]
pub struct Deliverables {
    /// Document deliverables (SRS, SDD, ...).
    pub documents: Vec<Document>,
    /// Computer Software Configuration Items.
    pub csci: Vec<Csci>,
    /// Demonstrations and reviews.
    pub demonstrations: Vec<Demonstration>,
}

/// A milestone for timeline reporting.
#[derive(Debug, Clone)]
pub struct Milestone {
    pub id: String,
    pub name: String,
    pub date: Date,
    pub kind: MilestoneKind,
}

/// What a milestone stands for.
#[derive(Debug, Clone, Copy, PartialEq, Eq, Structural)]
pub enum MilestoneKind {
    Document,
    Csci,
    Demonstration,
}

/// A document deliverable.
#[derive(Debug, Clone)]
pub struct Document {
    /// Human-readable document name.
    pub name: String,
    /// Unique identifier (e.g., "SRS-001").
    pub id: String,
    /// Target delivery date.
    pub due_date: Date,
    /// Label tracking the document's status on GitHub issues, if any.
    pub status_label: Option<String>,
    /// IDs of documents this one depends on.
    pub depends_on: Vec<String>,
}

/// A Computer Software Configuration Item.
#[derive(Debug, Clone)]
pub struct Csci {
    /// Human-readable CSCI name.
    pub name: String,
    /// Unique identifier (e.g., "CSCI-FCU").
    pub id: String,
    /// Target delivery date.
    pub target_date: Date,
    /// Repositories of this CSCI (`org/repo`).
    pub repos: Vec<String>,
    /// Label marking a ticket integration-ready (Tier 1).
    pub tier1_label: String,
    /// Label marking a ticket as having passed HIL testing (Tier 2).
    pub tier2_label: String,
}

/// A demonstration or review.
#[derive(Debug, Clone)]
pub struct Demonstration {
    /// Human-readable name.
    pub name: String,
    /// Unique identifier (e.g., "DEMO-PDR").
    pub id: String,
    /// First day of the demonstration.
    pub start_date: Date,
    /// Last day of the demonstration.
    pub end_date: Date,
    /// Optional description.
    pub description: Option<String>,
}

// ---------------------------------------------------------------------------
// Specifications
// ---------------------------------------------------------------------------

/// All deliverable IDs: documents, then CSCIs, then demonstrations.
pub open spec fn all_ids_spec(d: Deliverables) -> Seq<Seq<char>> {
    d.documents@.map_values(|x: Document| x.id@) + d.csci@.map_values(|x: Csci| x.id@)
        + d.demonstrations@.map_values(|x: Demonstration| x.id@)
}

/// The milestone of a document's due date.
pub open spec fn doc_milestone(d: Document) -> Milestone {
    Milestone { id: d.id, name: d.name, date: d.due_date, kind: MilestoneKind::Document }
}

/// The milestone of a CSCI's target date.
pub open spec fn csci_milestone(c: Csci) -> Milestone {
    Milestone { id: c.id, name: c.name, date: c.target_date, kind: MilestoneKind::Csci }
}

/// The milestone of a demonstration's start date.
pub open spec fn demo_milestone(d: Demonstration) -> Milestone {
    Milestone { id: d.id, name: d.name, date: d.start_date, kind: MilestoneKind::Demonstration }
}

/// The date lies in `lo..=hi`.
pub open spec fn in_window(d: Date, lo: int, hi: int) -> bool {
    lo <= d.day && d.day <= hi
}

/// Milestones of the documents due within `lo..=hi`, in order.
pub open spec fn doc_milestones(s: Seq<Document>, lo: int, hi: int) -> Seq<Milestone>
    decreases s.len(),
{
    if s.len() == 0 {
        Seq::empty()
    } else {
        let rest = doc_milestones(s.drop_last(), lo, hi);
        if in_window(s.last().due_date, lo, hi) {
            rest.push(doc_milestone(s.last()))
        } else {
            rest
        }
    }
}

/// Milestones of the CSCIs targeted within `lo..=hi`, in order.
pub open spec fn csci_milestones(s: Seq<Csci>, lo: int, hi: int) -> Seq<Milestone>
    decreases s.len(),
{
    if s.len() == 0 {
        Seq::empty()
    } else {
        let rest = csci_milestones(s.drop_last(), lo, hi);
        if in_window(s.last().target_date, lo, hi) {
            rest.push(csci_milestone(s.last()))
        } else {
            rest
        }
    }
}

/// Milestones of the demonstrations starting within `lo..=hi`, in order.
pub open spec fn demo_milestones(s: Seq<Demonstration>, lo: int, hi: int) -> Seq<Milestone>
    decreases s.len(),
{
    if s.len() == 0 {
        Seq::empty()
    } else {
        let rest = demo_milestones(s.drop_last(), lo, hi);
        if in_window(s.last().start_date, lo, hi) {
            rest.push(demo_milestone(s.last()))
        } else {
            rest
        }
    }
}

/// The milestones in `lo..=hi` before sorting: documents, CSCIs, demonstrations.
pub open spec fn milestone_candidates(d: Deliverables, lo: int, hi: int) -> Seq<Milestone> {
    doc_milestones(d.documents@, lo, hi) + csci_milestones(d.csci@, lo, hi) + demo_milestones(
        d.demonstrations@,
        lo,
        hi,
    )
}

/// Milestones in non-decreasing date order.
pub open spec fn sorted_by_date(s: Seq<Milestone>) -> bool {
    forall|i: int, j: int| 0 <= i <= j < s.len() ==> s[i].date.day <= s[j].date.day
}

/// The milestones on date `d`, in order.
pub open spec fn on_date(s: Seq<Milestone>, d: int) -> Seq<Milestone> {
    s.filter(|m: Milestone| m.date.day == d)
}

/// `a` is `b` stably sorted by date: sorted, and with the milestones of each
/// date in the same order as in `b`.
pub open spec fn stable_date_sort_of(a: Seq<Milestone>, b: Seq<Milestone>) -> bool {
    &&& sorted_by_date(a)
    &&& forall|d: int| #[trigger] on_date(a, d) == on_date(b, d)
}

// ---------------------------------------------------------------------------
// Sorting
// ---------------------------------------------------------------------------

proof fn lemma_filter_none<A>(s: Seq<A>, p: spec_fn(A) -> bool)
    requires
        forall|i: int| 0 <= i < s.len() ==> !p(#[trigger] s[i]),
    ensures
        s.filter(p) == Seq::<A>::empty(),
    decreases s.len(),
{
    reveal(Seq::filter);
    if s.len() > 0 {
        lemma_filter_none(s.drop_last(), p);
    }
}

/// Sorts milestones by date, keeping the order of milestones on the same date.
pub fn stable_sort_by_date(items: Vec<Milestone>) -> (r: Vec<Milestone>)
    ensures
        stable_date_sort_of(r@, items@),
{
    let ghost input = items@;
    let mut out: Vec<Milestone> = Vec::new();
    let mut items = items;
    let mut rest: Vec<Milestone> = Vec::new();
    // reverse `items` into `rest` so that popping yields them in order
    while items.len() > 0
        invariant
            input == items@ + rest@.reverse(),
        decreases items.len(),
    {
        let x = items.pop().unwrap();
        rest.push(x);
        proof {
            assert(input =~= items@ + rest@.reverse());
        }
    }
    assert(rest@.reverse() =~= input);
    let ghost n = input.len();
    while rest.len() > 0
        invariant
            n == input.len(),
            rest.len() <= n,
            input == input.take(n - rest.len()) + rest@.reverse(),
            sorted_by_date(out@),
            forall|d: int| #[trigger] on_date(out@, d) == on_date(input.take(n - rest.len()), d),
        decreases rest.len(),
    {
        let ghost done = input.take(n - rest.len());
        let x = rest.pop().unwrap();
        proof {
            assert(input.take(n - rest.len()) =~= done.push(x)) by {
                assert(input =~= done + (rest@.push(x)).reverse());
            }
            assert(input =~= input.take(n - rest.len()) + rest@.reverse()) by {
                assert(input =~= done + (rest@.push(x)).reverse());
            }
        }
        // position after every milestone dated no later than x
        let mut k: usize = 0;
        while k < out.len() && out[k].date.day <= x.date.day
            invariant
                k <= out.len(),
                forall|j: int| 0 <= j < k ==> out@[j].date.day <= x.date.day,
            decreases out.len() - k,
        {
            k = k + 1;
        }
        let ghost old_out = out@;
        let ghost a = old_out.subrange(0, k as int);
        let ghost b = old_out.subrange(k as int, old_out.len() as int);
        proof {
            assert forall|j: int| 0 <= j < b.len() implies b[j].date.day > x.date.day by {
                if k < old_out.len() {
                    assert(old_out[k as int].date.day > x.date.day);
                    assert(old_out[k as int].date.day <= old_out[k + j].date.day);
                }
            }
            assert(old_out =~= a + b);
        }
        out.insert(k, x);
        proof {
            let new_out = out@;
            assert(new_out =~= a + seq![x] + b);
            assert forall|i: int, j: int| 0 <= i <= j < new_out.len() implies new_out[i].date.day
                <= new_out[j].date.day by {
                if i < k && j > k {
                    assert(new_out[j] == old_out[j - 1]);
                }
                if i < k && j < k {
                }
                if i > k {
                    assert(new_out[i] == old_out[i - 1]);
                    assert(new_out[j] == old_out[j - 1]);
                }
                if i == k && j > k {
                    assert(new_out[j] == b[j - k - 1]);
                }
            }
            assert forall|d: int| #[trigger] on_date(new_out, d) == on_date(
                input.take(n - rest.len()),
                d,
            ) by {
                let p = |m: Milestone| m.date.day == d;
                Seq::<Milestone>::filter_distributes_over_add(a + seq![x], b, p);
                Seq::<Milestone>::filter_distributes_over_add(a, seq![x], p);
                Seq::<Milestone>::filter_distributes_over_add(a, b, p);
                done.lemma_filter_push(x, p);
                assert(on_date(old_out, d) == on_date(done, d));
                if d == x.date.day {
                    lemma_filter_none(b, p);
                    Seq::<Milestone>::empty().lemma_filter_push(x, p);
                    assert(Seq::<Milestone>::empty().filter(p) == Seq::<Milestone>::empty()) by {
                        lemma_filter_none(Seq::<Milestone>::empty(), p);
                    }
                    assert(seq![x] =~= Seq::<Milestone>::empty().push(x));
                    assert(a.filter(p) + seq![x] =~= a.filter(p).push(x));
                    assert(a.filter(p) + Seq::<Milestone>::empty() =~= a.filter(p));
                } else {
                    Seq::<Milestone>::empty().lemma_filter_push(x, p);
                    assert(Seq::<Milestone>::empty().filter(p) == Seq::<Milestone>::empty()) by {
                        lemma_filter_none(Seq::<Milestone>::empty(), p);
                    }
                    assert(seq![x] =~= Seq::<Milestone>::empty().push(x));
                    assert(a.filter(p) + Seq::<Milestone>::empty() =~= a.filter(p));
                }
            }
        }
    }
    assert(input.take(n as int) =~= input);
    out
}

// ---------------------------------------------------------------------------
// Deliverables
// ---------------------------------------------------------------------------

impl Deliverables {
    /// All deliverable IDs: documents, then CSCIs, then demonstrations.
    pub fn all_ids(&self) -> (r: Vec<&str>)
        ensures
            r.len() == all_ids_spec(*self).len(),
            forall|i: int| 0 <= i < r.len() ==> (#[trigger] r@[i])@ == all_ids_spec(*self)[i],
    {
        let nd = self.documents.len();
        let nc = self.csci.len();
        let mut ids: Vec<&str> = Vec::new();
        let mut i: usize = 0;
        while i < nd
            invariant
                nd == self.documents.len(),
                i <= nd,
                ids.len() == i,
                forall|j: int| 0 <= j < i ==> (#[trigger] ids@[j])@ == self.documents@[j].id@,
            decreases nd - i,
        {
            ids.push(self.documents[i].id.as_str());
            i = i + 1;
        }
        let mut i: usize = 0;
        while i < nc
            invariant
                nd == self.documents.len(),
                nc == self.csci.len(),
                i <= nc,
                ids.len() == nd + i,
                forall|j: int| 0 <= j < nd ==> (#[trigger] ids@[j])@ == self.documents@[j].id@,
                forall|j: int| 0 <= j < i ==> (#[trigger] ids@[nd + j])@ == self.csci@[j].id@,
            decreases nc - i,
        {
            ids.push(self.csci[i].id.as_str());
            i = i + 1;
        }
        let mut i: usize = 0;
        while i < self.demonstrations.len()
            invariant
                nd == self.documents.len(),
                nc == self.csci.len(),
                i <= self.demonstrations.len(),
                ids.len() == nd + nc + i,
                forall|j: int| 0 <= j < nd ==> (#[trigger] ids@[j])@ == self.documents@[j].id@,
                forall|j: int| 0 <= j < nc ==> (#[trigger] ids@[nd + j])@ == self.csci@[j].id@,
                forall|j: int|
                    0 <= j < i ==> (#[trigger] ids@[nd + nc + j])@ == self.demonstrations@[j].id@,
            decreases self.demonstrations.len() - i,
        {
            ids.push(self.demonstrations[i].id.as_str());
            i = i + 1;
        }
        proof {
            let sp = all_ids_spec(*self);
            assert forall|k: int| 0 <= k < ids.len() implies (#[trigger] ids@[k])@ == sp[k] by {
                if k < nd {
                } else if k < nd + nc {
                    assert(ids@[nd + (k - nd)] == ids@[k]);
                } else {
                    assert(ids@[nd + nc + (k - nd - nc)] == ids@[k]);
                }
            }
        }
        ids
    }

    /// The first document with ID `id`.
    pub fn document_by_id(&self, id: &str) -> (r: Option<&Document>)
        ensures
            r is None ==> forall|i: int|
                0 <= i < self.documents.len() ==> (#[trigger] self.documents@[i]).id@ != id@,
            r matches Some(x) ==> exists|i: int|
                0 <= i < self.documents.len() && self.documents@[i] == *x && x.id@ == id@
                    && forall|j: int|
                    0 <= j < i ==> (#[trigger] self.documents@[j]).id@ != id@,
    {
        let mut i: usize = 0;
        while i < self.documents.len()
            invariant
                i <= self.documents.len(),
                forall|j: int| 0 <= j < i ==> (#[trigger] self.documents@[j]).id@ != id@,
            decreases self.documents.len() - i,
        {
            if text::str_eq(self.documents[i].id.as_str(), id) {
                return Some(&self.documents[i]);
            }
            i = i + 1;
        }
        None
    }

    /// The first CSCI with ID `id`.
    pub fn csci_by_id(&self, id: &str) -> (r: Option<&Csci>)
        ensures
            r is None ==> forall|i: int|
                0 <= i < self.csci.len() ==> (#[trigger] self.csci@[i]).id@ != id@,
            r matches Some(x) ==> exists|i: int|
                0 <= i < self.csci.len() && self.csci@[i] == *x && x.id@ == id@ && forall|j: int|
                    0 <= j < i ==> (#[trigger] self.csci@[j]).id@ != id@,
    {
        let mut i: usize = 0;
        while i < self.csci.len()
            invariant
                i <= self.csci.len(),
                forall|j: int| 0 <= j < i ==> (#[trigger] self.csci@[j]).id@ != id@,
            decreases self.csci.len() - i,
        {
            if text::str_eq(self.csci[i].id.as_str(), id) {
                return Some(&self.csci[i]);
            }
            i = i + 1;
        }
        None
    }

    /// The first demonstration with ID `id`.
    pub fn demonstration_by_id(&self, id: &str) -> (r: Option<&Demonstration>)
        ensures
            r is None ==> forall|i: int|
                0 <= i < self.demonstrations.len() ==> (#[trigger] self.demonstrations@[i]).id@
                    != id@,
            r matches Some(x) ==> exists|i: int|
                0 <= i < self.demonstrations.len() && self.demonstrations@[i] == *x && x.id@ == id@
                    && forall|j: int|
                    0 <= j < i ==> (#[trigger] self.demonstrations@[j]).id@ != id@,
    {
        let mut i: usize = 0;
        while i < self.demonstrations.len()
            invariant
                i <= self.demonstrations.len(),
                forall|j: int| 0 <= j < i ==> (#[trigger] self.demonstrations@[j]).id@ != id@,
            decreases self.demonstrations.len() - i,
        {
            if text::str_eq(self.demonstrations[i].id.as_str(), id) {
                return Some(&self.demonstrations[i]);
            }
            i = i + 1;
        }
        None
    }

    /// Milestones dated from `as_of` to `within_days` days later (both
    /// included): document due dates, CSCI target dates and demonstration
    /// start dates, sorted by date (milestones on the same date keep the order
    /// documents, CSCIs, demonstrations, each in configuration order).
    pub fn upcoming_milestones(&self, as_of: Date, within_days: i64) -> (r: Vec<Milestone>)
        requires
            day_in_range(as_of.day + within_days),
        ensures
            stable_date_sort_of(
                r@,
                milestone_candidates(*self, as_of.day as int, as_of.day + within_days),
            ),
    {
        let cutoff = as_of.add_days(within_days);
        let ghost lo = as_of.day as int;
        let ghost hi = cutoff.day as int;
        let mut ms: Vec<Milestone> = Vec::new();
        let mut i: usize = 0;
        while i < self.documents.len()
            invariant
                i <= self.documents.len(),
                lo == as_of.day,
                hi == cutoff.day,
                ms@ == doc_milestones(self.documents@.take(i as int), lo, hi),
            decreases self.documents.len() - i,
        {
            let d = &self.documents[i];
            proof {
                assert(self.documents@.take(i + 1).drop_last() =~= self.documents@.take(i as int));
            }
            if d.due_date.day >= as_of.day && d.due_date.day <= cutoff.day {
                ms.push(
                    Milestone {
                        id: d.id.clone(),
                        name: d.name.clone(),
                        date: d.due_date,
                        kind: MilestoneKind::Document,
                    },
                );
            }
            i = i + 1;
        }
        assert(self.documents@.take(i as int) =~= self.documents@);
        let ghost docs = ms@;
        let mut i: usize = 0;
        while i < self.csci.len()
            invariant
                i <= self.csci.len(),
                lo == as_of.day,
                hi == cutoff.day,
                ms@ == docs + csci_milestones(self.csci@.take(i as int), lo, hi),
            decreases self.csci.len() - i,
        {
            let c = &self.csci[i];
            proof {
                assert(self.csci@.take(i + 1).drop_last() =~= self.csci@.take(i as int));
            }
            if c.target_date.day >= as_of.day && c.target_date.day <= cutoff.day {
                ms.push(
                    Milestone {
                        id: c.id.clone(),
                        name: c.name.clone(),
                        date: c.target_date,
                        kind: MilestoneKind::Csci,
                    },
                );
                proof {
                    assert(ms@ =~= docs + csci_milestones(self.csci@.take(i + 1), lo, hi));
                }
            }
            i = i + 1;
        }
        assert(self.csci@.take(i as int) =~= self.csci@);
        let ghost dc = ms@;
        let mut i: usize = 0;
        while i < self.demonstrations.len()
            invariant
                i <= self.demonstrations.len(),
                lo == as_of.day,
                hi == cutoff.day,
                ms@ == dc + demo_milestones(self.demonstrations@.take(i as int), lo, hi),
            decreases self.demonstrations.len() - i,
        {
            let d = &self.demonstrations[i];
            proof {
                assert(self.demonstrations@.take(i + 1).drop_last() =~= self.demonstrations@.take(
                    i as int,
                ));
            }
            if d.start_date.day >= as_of.day && d.start_date.day <= cutoff.day {
                ms.push(
                    Milestone {
                        id: d.id.clone(),
                        name: d.name.clone(),
                        date: d.start_date,
                        kind: MilestoneKind::Demonstration,
                    },
                );
                proof {
                    assert(ms@ =~= dc + demo_milestones(self.demonstrations@.take(i + 1), lo, hi));
                }
            }
            i = i + 1;
        }
        assert(self.demonstrations@.take(i as int) =~= self.demonstrations@);
        stable_sort_by_date(ms)
    }
}

impl Milestone {
    /// Days from `from` to this milestone (negative when past).
    pub fn days_until(&self, from: Date) -> (r: i64)
        ensures
            r == self.date.day - from.day,
    {
        self.date.days_since(from)
    }
}

impl Document {
    /// Whether the document is overdue on `as_of` (strictly after its due date).
    pub fn is_overdue(&self, as_of: Date) -> (r: bool)
        ensures
            r == (as_of.day > self.due_date.day),
    {
        as_of.day > self.due_date.day
    }

    /// Days until due (negative when overdue).
    pub fn days_until_due(&self, as_of: Date) -> (r: i64)
        ensures
            r == self.due_date.day - as_of.day,
    {
        self.due_date.days_since(as_of)
    }
}

/// The `(org, repo)` pairs of `org/repo` entries, split at the first `/`;
/// entries without `/` are skipped.
pub open spec fn repo_pairs_spec(repos: Seq<String>) -> Seq<(Seq<char>, Seq<char>)>
    decreases repos.len(),
{
    if repos.len() == 0 {
        Seq::empty()
    } else {
        let rest = repo_pairs_spec(repos.drop_last());
        match text::split_once(repos.last()@, '/') {
            Some(p) => rest.push(p),
            None => rest,
        }
    }
}

impl Csci {
    /// Whether `org/repo` is one of the CSCI's repositories.
    pub fn contains_repo(&self, org: &str, repo: &str) -> (r: bool)
        ensures
            r == exists|i: int|
                0 <= i < self.repos.len() && (#[trigger] self.repos@[i])@ == org@ + seq!['/']
                    + repo@,
    {
        let mut full = text::owned(org);
        text::push_char(&mut full, '/');
        text::push_str(&mut full, repo);
        let mut i: usize = 0;
        while i < self.repos.len()
            invariant
                i <= self.repos.len(),
                full@ == org@ + seq!['/'] + repo@,
                forall|j: int| 0 <= j < i ==> (#[trigger] self.repos@[j])@ != full@,
            decreases self.repos.len() - i,
        {
            if self.repos[i] == full {
                return true;
            }
            i = i + 1;
        }
        false
    }

    /// The repositories as `(org, repo)` pairs split at the first `/`;
    /// entries without `/` are skipped.
    pub fn repo_pairs(&self) -> (r: Vec<(&str, &str)>)
        ensures
            r.len() == repo_pairs_spec(self.repos@).len(),
            forall|j: int|
                0 <= j < r.len() ==> ((#[trigger] r@[j]).0@, r@[j].1@) == repo_pairs_spec(
                    self.repos@,
                )[j],
    {
        let mut out: Vec<(&str, &str)> = Vec::new();
        let mut i: usize = 0;
        while i < self.repos.len()
            invariant
                i <= self.repos.len(),
                out.len() == repo_pairs_spec(self.repos@.take(i as int)).len(),
                forall|j: int|
                    0 <= j < out.len() ==> ((#[trigger] out@[j]).0@, out@[j].1@) == repo_pairs_spec(
                        self.repos@.take(i as int),
                    )[j],
            decreases self.repos.len() - i,
        {
            let r = self.repos[i].as_str();
            let v = text::chars_of(r);
            let ghost before = repo_pairs_spec(self.repos@.take(i as int));
            proof {
                assert(self.repos@.take(i + 1).drop_last() =~= self.repos@.take(i as int));
            }
            match text::find_char(&v, '/') {
                Some(k) => {
                    let a = r.substring_char(0, k);
                    let b = r.substring_char(k + 1, v.len());
                    out.push((a, b));
                    proof {
                        let after = repo_pairs_spec(self.repos@.take(i + 1));
                        assert(after == before.push((a@, b@)));
                        assert forall|j: int| 0 <= j < out.len() implies ((#[trigger] out@[j]).0@,
                        out@[j].1@) == after[j] by {
                            if j < before.len() {
                            }
                        }
                    }
                },
                None => {},
            }
            i = i + 1;
        }
        assert(self.repos@.take(i as int) =~= self.repos@);
        out
    }

    /// Whether the CSCI is overdue on `as_of` (strictly after its target date).
    pub fn is_overdue(&self, as_of: Date) -> (r: bool)
        ensures
            r == (as_of.day > self.target_date.day),
    {
        as_of.day > self.target_date.day
    }

    /// Days until the target date (negative when overdue).
    pub fn days_until_target(&self, as_of: Date) -> (r: i64)
        ensures
            r == self.target_date.day - as_of.day,
    {
        self.target_date.days_since(as_of)
    }
}

impl Demonstration {
    /// Length of the demonstration in days, both ends included.
    pub fn duration_days(&self) -> (r: i64)
        ensures
            r == self.end_date.day - self.start_date.day + 1,
    {
        self.end_date.days_since(self.start_date) + 1
    }

    /// Whether `date` falls within the demonstration (both ends included).
    pub fn contains_date(&self, date: Date) -> (r: bool)
        ensures
            r == (self.start_date.day <= date.day && date.day <= self.end_date.day),
    {
        date.day >= self.start_date.day && date.day <= self.end_date.day
    }

    /// Days until the start (negative when past).
    pub fn days_until_start(&self, as_of: Date) -> (r: i64)
        ensures
            r == self.start_date.day - as_of.day,
    {
        self.start_date.days_since(as_of)
    }
}

/// A deliverable is overdue exactly when the days until its date are negative.
pub proof fn lemma_overdue_iff_negative_days(due: Date, as_of: Date)
    ensures
        (as_of.day > due.day) <==> (due.day - as_of.day < 0),
{
}

/// For an organisation name without `/`, a CSCI contains `org/repo` exactly
/// when `(org, repo)` is one of its repository pairs.
pub proof fn lemma_contains_repo_iff_pair(repos: Seq<String>, org: Seq<char>, repo: Seq<char>)
    requires
        !text::contains_char(org, '/'),
    ensures
        (exists|i: int| 0 <= i < repos.len() && (#[trigger] repos[i])@ == org + seq!['/'] + repo)
            <==> repo_pairs_spec(repos).contains((org, repo)),
    decreases repos.len(),
{
    if repos.len() > 0 {
        let init = repos.drop_last();
        let last = repos.last();
        lemma_contains_repo_iff_pair(init, org, repo);
        let rest = repo_pairs_spec(init);
        let full = org + seq!['/'] + repo;
        text::lemma_split_once_join(org, repo, '/');
        if exists|i: int| 0 <= i < repos.len() && (#[trigger] repos[i])@ == full {
            let i = choose|i: int| 0 <= i < repos.len() && (#[trigger] repos[i])@ == full;
            if i < repos.len() - 1 {
                assert(init[i] == repos[i]);
                let k = choose|k: int| 0 <= k < rest.len() && rest[k] == (org, repo);
                assert(repo_pairs_spec(repos)[k] == (org, repo));
            } else {
                assert(repo_pairs_spec(repos) == rest.push((org, repo)));
                assert(repo_pairs_spec(repos)[rest.len() as int] == (org, repo));
            }
        }
        if repo_pairs_spec(repos).contains((org, repo)) {
            let k = choose|k: int|
                0 <= k < repo_pairs_spec(repos).len() && repo_pairs_spec(repos)[k] == (org, repo);
            if k < rest.len() {
                assert(rest[k] == (org, repo));
                let i = choose|i: int| 0 <= i < init.len() && (#[trigger] init[i])@ == full;
                assert(repos[i] == init[i]);
            } else {
                text::lemma_split_once_parts(last@, '/');
                assert(repos[repos.len() - 1]@ == full);
            }
        }
    }
}

} // verus!

//! Shared pieces of the report renderers: the texts of the report's
//! floating-point quantities, and small text builders.

use vstd::prelude::*;
use crate::calendar::{Date, date_text};
use crate::report::data::{CsciStatus, ReportData};
use crate::text;

verus! {

/// Texts of a CSCI's floating-point quantities.
#[derive(Debug, Clone)]
pub struct CsciTexts {
    /// Adjusted completion percentage, rounded to a whole number (`{:.0}`).
    pub completion: String,
    /// Completion percentage capped at 100, as Rust displays a float (`{}`).
    pub bar_width: String,
    /// Filled cells of a 25-cell progress bar: the completion fraction times
    /// 25, truncated toward zero.
    pub filled_cells: usize,
}

/// Texts of a report's floating-point quantities, which the renderers place
/// as they are.
#[derive(Debug, Clone)]
pub struct NumberTexts {
    /// Rolling velocity average, rounded (`{:.0}`).
    pub velocity_avg: String,
    /// Actual velocity as a percentage of the adjusted target, rounded.
    pub performance_percent: String,
    /// Whether that percentage is at least 100.
    pub performance_met: bool,
    /// Percentage of the project timeline elapsed, rounded.
    pub percent_elapsed: String,
    /// For each CSCI of the report, in order.
    pub cscis: Vec<CsciTexts>,
    /// For each distraction of the report, in order: its estimated hours,
    /// rounded, when known.
    pub distraction_hours: Vec<Option<String>>,
}

/// The texts fit the report: one entry per CSCI and per distraction.
pub open spec fn texts_fit(data: ReportData, nums: NumberTexts) -> bool {
    &&& nums.cscis.len() == data.project.cscis.len()
    &&& nums.distraction_hours.len() == data.weekly.distractions.len()
}

/// Every date of the report is one `chrono` can represent, and no CSCI's
/// buffer is `i64::MIN` (whose magnitude has no `i64`).
pub open spec fn report_wf(data: ReportData) -> bool {
    &&& data.meta.week_start.wf()
    &&& data.meta.week_end.wf()
    &&& forall|i: int|
        0 <= i < data.project.cscis.len() ==> {
            let c = #[trigger] data.project.cscis@[i];
            c.target_date.wf() && c.buffer_days > i64::MIN
        }
    &&& forall|i: int|
        0 <= i < data.project.dependencies.len() ==> {
            let d = #[trigger] data.project.dependencies@[i];
            d.rc_due.wf() && d.final_due.wf()
        }
    &&& forall|i: int|
        0 <= i < data.project.documents.len() ==> {
            let d = #[trigger] data.project.documents@[i];
            d.due_date.wf() && match d.completed_date {
                Some(c) => c.wf(),
                None => true,
            }
        }
    &&& forall|i: int|
        0 <= i < data.project.milestones.len() ==> (#[trigger] data.project.milestones@[i]).date.wf()
}

/// `n` copies of `c`.
pub open spec fn repeat_char(c: char, n: nat) -> Seq<char> {
    Seq::new(n, |i: int| c)
}

/// A progress bar of `width` cells with `filled` of them filled (more when
/// `filled` exceeds `width`).
pub open spec fn bar_spec(filled: nat, width: nat) -> Seq<char> {
    repeat_char('█', filled) + repeat_char(
        '░',
        if filled < width {
            (width - filled) as nat
        } else {
            0
        },
    )
}

/// A progress bar: `filled` filled cells, then empty ones up to `width`.
pub fn progress_bar_cells(filled: usize, width: usize) -> (r: String)
    ensures
        r@ == bar_spec(filled as nat, width as nat),
{
    let mut out = String::new();
    let mut i: usize = 0;
    while i < filled
        invariant
            i <= filled,
            out@ == repeat_char('█', i as nat),
        decreases filled - i,
    {
        text::push_char(&mut out, '█');
        i = i + 1;
        proof {
            assert(out@ =~= repeat_char('█', i as nat));
        }
    }
    let empty = if filled < width {
        width - filled
    } else {
        0
    };
    let mut j: usize = 0;
    while j < empty
        invariant
            j <= empty,
            out@ == repeat_char('█', filled as nat) + repeat_char('░', j as nat),
        decreases empty - j,
    {
        text::push_char(&mut out, '░');
        j = j + 1;
        proof {
            assert(out@ =~= repeat_char('█', filled as nat) + repeat_char('░', j as nat));
        }
    }
    out
}

/// Decimal of a signed number with an explicit sign (`{:+}`).
pub open spec fn plus_signed(i: int) -> Seq<char> {
    if i >= 0 {
        seq!['+'] + text::decimal(i as nat)
    } else {
        text::signed_decimal(i)
    }
}

/// Appends `n` with an explicit sign.
pub fn push_plus_signed(out: &mut String, n: i64)
    ensures
        final(out)@ == old(out)@ + plus_signed(n as int),
{
    if n >= 0 {
        text::push_char(out, '+');
        text::push_decimal(out, n as u64);
        proof {
            assert(final(out)@ =~= old(out)@ + plus_signed(n as int));
        }
    } else {
        text::push_signed_decimal(out, n);
    }
}

/// Appends a date as `chrono` displays it.
pub fn push_date(out: &mut String, d: Date)
    requires
        d.wf(),
    ensures
        final(out)@ == old(out)@ + date_text(d.day as int),
{
    let t = d.to_text();
    text::push_str(out, t.as_str());
}

/// The strings of `s` joined by `, `.
pub open spec fn join_comma(s: Seq<String>) -> Seq<char>
    decreases s.len(),
{
    if s.len() == 0 {
        Seq::empty()
    } else if s.len() == 1 {
        s[0]@
    } else {
        join_comma(s.drop_last()) + ", "@ + s.last()@
    }
}

/// Appends the strings of `v` joined by `, `.
pub fn push_joined(out: &mut String, v: &Vec<String>)
    ensures
        final(out)@ == old(out)@ + join_comma(v@),
{
    let ghost start = out@;
    let mut i: usize = 0;
    while i < v.len()
        invariant
            i <= v.len(),
            out@ == start + join_comma(v@.take(i as int)),
        decreases v.len() - i,
    {
        proof {
            assert(v@.take(i + 1).drop_last() =~= v@.take(i as int));
            assert(v@.take(i + 1).last() == v@[i as int]);
        }
        if i > 0 {
            text::push_str(out, ", ");
        }
        text::push_str(out, v[i].as_str());
        proof {
            if i == 0 {
                assert(v@.take(1) =~= seq![v@[0]]);
            }
            assert(out@ =~= start + join_comma(v@.take(i + 1)));
        }
        i = i + 1;
    }
    proof {
        assert(v@.take(i as int) =~= v@);
    }
}

/// The magnitude of a CSCI's buffer.
pub open spec fn buffer_magnitude(c: CsciStatus) -> nat {
    if c.buffer_days < 0 {
        (-c.buffer_days) as nat
    } else {
        c.buffer_days as nat
    }
}

/// The texts `f` gives each item of `s`, one after another.
pub open spec fn lines_of<T>(s: Seq<T>, f: spec_fn(T) -> Seq<char>) -> Seq<char>
    decreases s.len(),
{
    if s.len() == 0 {
        Seq::empty()
    } else {
        lines_of(s.drop_last(), f) + f(s.last())
    }
}

/// `p` occurs in `t` from index `i`.
pub open spec fn occurs_at(t: Seq<char>, p: Seq<char>, i: int) -> bool {
    0 <= i && i + p.len() <= t.len() && t.subrange(i, i + p.len()) == p
}

/// `p` occurs in `t`.
pub open spec fn contains_text(t: Seq<char>, p: Seq<char>) -> bool {
    exists|i: int| #[trigger] occurs_at(t, p, i)
}

/// A text occurs in any text built around it.
pub proof fn lemma_contains_around(a: Seq<char>, t: Seq<char>, b: Seq<char>, p: Seq<char>)
    requires
        contains_text(t, p),
    ensures
        contains_text(a + t + b, p),
{
    let i = choose|i: int| #[trigger] occurs_at(t, p, i);
    let u = a + t + b;
    let j = i + a.len();
    assert(u.subrange(j, j + p.len()) =~= t.subrange(i, i + p.len()));
    assert(occurs_at(u, p, j));
}

/// A text occurs in itself, and in any text built around it.
pub proof fn lemma_contains_part(a: Seq<char>, p: Seq<char>, b: Seq<char>)
    ensures
        contains_text(a + p + b, p),
{
    let u = a + p + b;
    assert(u.subrange(a.len() as int, (a.len() + p.len()) as int) =~= p);
    assert(occurs_at(u, p, a.len() as int));
}

/// The last three parts of a text occur in it.
pub proof fn lemma_contains_last3(x: Seq<char>, y: Seq<char>, z: Seq<char>, w: Seq<char>)
    ensures
        contains_text(x + y + z + w, y + z + w),
{
    let u = x + y + z + w;
    let t = y + z + w;
    assert(u.len() == x.len() + t.len());
    assert(u.subrange(x.len() as int, u.len() as int) =~= t);
    assert(occurs_at(u, t, x.len() as int));
}

/// Each item's text occurs in the texts of all the items.
pub proof fn lemma_lines_of_contains<T>(s: Seq<T>, f: spec_fn(T) -> Seq<char>, k: int, p: Seq<char>)
    requires
        0 <= k < s.len(),
        contains_text(f(s[k]), p),
    ensures
        contains_text(lines_of(s, f), p),
    decreases s.len(),
{
    let n = s.len() - 1;
    if k == n {
        lemma_contains_around(lines_of(s.drop_last(), f), f(s.last()), Seq::empty(), p);
        assert(lines_of(s.drop_last(), f) + f(s.last()) + Seq::<char>::empty() =~= lines_of(s, f));
    } else {
        assert(s.drop_last()[k] == s[k]);
        lemma_lines_of_contains(s.drop_last(), f, k, p);
        lemma_contains_around(Seq::empty(), lines_of(s.drop_last(), f), f(s.last()), p);
        assert(Seq::<char>::empty() + lines_of(s.drop_last(), f) + f(s.last()) =~= lines_of(s, f));
    }
}

/// The text of an optional string, or `default` when there is none.
pub open spec fn text_or(o: Option<String>, default: Seq<char>) -> Seq<char> {
    match o {
        Some(s) => s@,
        None => default,
    }
}

} // verus!

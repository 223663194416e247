//! Command-line level values: output formats and ISO week strings (`YYYY-Www`).

use vstd::prelude::*;
use crate::text;

verus! {

/// A parsed command line: the subcommand to run.
#[derive(Debug, Clone)]
pub struct Cli {
    /// The subcommand.
    pub command: Command,
}

/// The subcommands, with their arguments (paths as strings).
#[derive(Debug, Clone)]
pub enum Command {
    /// Generate a stub project.toml with example values.
    Init {
        /// Output file path.
        output: String,
    },
    /// Output the JSON schema of project.toml (stdout when no path is given).
    Schema {
        /// Output file path.
        output: Option<String>,
    },
    /// Validate a project.toml file.
    Validate {
        /// Path to project.toml.
        config: String,
    },
    /// Generate a weekly report.
    Report {
        /// Path to project.toml.
        config: String,
        /// Week to report on (`YYYY-Www`); the current week when absent.
        week: Option<String>,
        /// Output format.
        format: OutputFormat,
        /// Output directory (for all formats) or file path.
        output: Option<String>,
        /// GitHub personal access token.
        token: Option<String>,
    },
}

/// Output format of a report.
#[derive(Debug, Clone, Copy, PartialEq, Eq, Structural)]
pub enum OutputFormat {
    /// Self-contained Markdown with embedded images as data URLs.
    Markdown,
    /// Self-contained HTML for viewing in a browser.
    Html,
    /// PDF for formal reporting.
    Pdf,
    /// Generate all formats.
    All,
}

/// File extension of an output format (none for all formats).
pub open spec fn extension_spec(f: OutputFormat) -> Seq<char> {
    match f {
        OutputFormat::Markdown => seq!['m', 'd'],
        OutputFormat::Html => seq!['h', 't', 'm', 'l'],
        OutputFormat::Pdf => seq!['p', 'd', 'f'],
        OutputFormat::All => Seq::empty(),
    }
}

impl OutputFormat {
    /// File extension of the format (empty for `All`, which is not written directly).
    pub fn extension(&self) -> (r: &'static str)
        ensures
            r@ == extension_spec(*self),
    {
        match self {
            OutputFormat::Markdown => {
                proof {
                    reveal_strlit("md");
                }
                "md"
            },
            OutputFormat::Html => {
                proof {
                    reveal_strlit("html");
                }
                "html"
            },
            OutputFormat::Pdf => {
                proof {
                    reveal_strlit("pdf");
                }
                "pdf"
            },
            OutputFormat::All => {
                proof {
                    reveal_strlit("");
                }
                ""
            },
        }
    }
}

/// Why an ISO week string was rejected.
#[derive(Debug, Clone, Copy, PartialEq, Eq, Structural)]
pub enum IsoWeekError {
    /// The string does not contain exactly one `-W` separator.
    Format,
    /// The part before `-W` is not an `i32`.
    Year,
    /// The part after `-W` is not a `u32`.
    Week,
    /// The week number is outside 1..=53.
    WeekRange,
}

impl IsoWeekError {
    /// Human-readable description of the error.
    pub fn message(&self) -> (r: String)
        ensures
            r@ == iso_week_error_message(*self),
    {
        match self {
            IsoWeekError::Format => text::owned(
                "Invalid ISO week format. Expected YYYY-Www (e.g., 2026-W02)",
            ),
            IsoWeekError::Year => text::owned("Invalid year in ISO week"),
            IsoWeekError::Week => text::owned("Invalid week number in ISO week"),
            IsoWeekError::WeekRange => text::owned("Week number must be between 1 and 53"),
        }
    }
}

/// Human-readable text of an ISO week error.
pub open spec fn iso_week_error_message(e: IsoWeekError) -> Seq<char> {
    match e {
        IsoWeekError::Format => "Invalid ISO week format. Expected YYYY-Www (e.g., 2026-W02)"@,
        IsoWeekError::Year => "Invalid year in ISO week"@,
        IsoWeekError::Week => "Invalid week number in ISO week"@,
        IsoWeekError::WeekRange => "Week number must be between 1 and 53"@,
    }
}

/// The separator `-W` starts at index `i` of `s`.
pub open spec fn week_sep_at(s: Seq<char>, i: int) -> bool {
    0 <= i && i + 1 < s.len() && s[i] == '-' && s[i + 1] == 'W'
}

/// `s` holds exactly one `-W` (so splitting on it gives exactly two parts).
pub open spec fn single_week_sep(s: Seq<char>) -> bool {
    &&& exists|i: int| week_sep_at(s, i)
    &&& forall|i: int, j: int| week_sep_at(s, i) && week_sep_at(s, j) ==> i == j
}

/// The position of a `-W` separator in `s` (the one, when there is exactly one).
pub open spec fn week_sep_index(s: Seq<char>) -> int {
    choose|i: int| week_sep_at(s, i)
}

/// What parsing an ISO week string gives.
pub open spec fn parse_iso_week_spec(s: Seq<char>) -> Result<(i32, u32), IsoWeekError> {
    if !single_week_sep(s) {
        Err(IsoWeekError::Format)
    } else {
        let i = week_sep_index(s);
        match text::parse_i32_spec(s.subrange(0, i)) {
            None => Err(IsoWeekError::Year),
            Some(year) => match text::parse_u32_spec(s.subrange(i + 2, s.len() as int)) {
                None => Err(IsoWeekError::Week),
                Some(week) => if 1 <= week && week <= 53 {
                    Ok((year, week))
                } else {
                    Err(IsoWeekError::WeekRange)
                },
            },
        }
    }
}

/// The text `format_iso_week` produces.
pub open spec fn format_iso_week_spec(year: int, week: nat) -> Seq<char> {
    text::signed_decimal(year) + seq!['-', 'W'] + text::zero_padded2(week)
}

/// Parses an ISO week string (`YYYY-Www`) into year and week number.
pub fn parse_iso_week(s: &str) -> (r: Result<(i32, u32), IsoWeekError>)
    ensures
        r == parse_iso_week_spec(s@),
{
    let v = text::chars_of(s);
    let n = v.len();
    if n < 2 {
        proof {
            assert forall|j: int| !week_sep_at(v@, j) by {}
        }
        return Err(IsoWeekError::Format);
    }
    // first separator
    let mut i: usize = 0;
    while i < n - 1 && !(v[i] == '-' && v[i + 1] == 'W')
        invariant
            v@ == s@,
            n == v.len(),
            n >= 2,
            i <= n - 1,
            forall|j: int| 0 <= j < i ==> !week_sep_at(v@, j),
        decreases n - i,
    {
        i = i + 1;
    }
    if i == n - 1 {
        proof {
            assert forall|j: int| !week_sep_at(v@, j) by {}
        }
        return Err(IsoWeekError::Format);
    }
    // any further separator?
    let mut k: usize = i + 2;
    while k < n - 1
        invariant
            n >= 2,
            v@ == s@,
            n == v.len(),
            week_sep_at(v@, i as int),
            i + 2 <= k,
            forall|j: int| 0 <= j < i ==> !week_sep_at(v@, j),
            forall|j: int| i < j < k ==> !week_sep_at(v@, j),
        decreases n - k,
    {
        if v[k] == '-' && v[k + 1] == 'W' {
            proof {
                assert(week_sep_at(v@, k as int));
                assert(!single_week_sep(v@));
            }
            return Err(IsoWeekError::Format);
        }
        k = k + 1;
    }
    proof {
        assert(!week_sep_at(v@, i + 1));
        assert forall|a: int, b: int| week_sep_at(v@, a) && week_sep_at(v@, b) implies a == b by {
            assert(a == i);
            assert(b == i);
        }
        assert(single_week_sep(v@));
        assert(week_sep_index(v@) == i);
    }
    match text::parse_i32_at(&v, 0, i) {
        None => Err(IsoWeekError::Year),
        Some(year) => match text::parse_u32_at(&v, i + 2, n) {
            None => Err(IsoWeekError::Week),
            Some(week) => {
                if 1 <= week && week <= 53 {
                    Ok((year, week))
                } else {
                    Err(IsoWeekError::WeekRange)
                }
            },
        },
    }
}

/// Formats an ISO week as `YYYY-Www` (week zero-padded to two digits).
pub fn format_iso_week(year: i32, week: u32) -> (r: String)
    ensures
        r@ == format_iso_week_spec(year as int, week as nat),
{
    let mut out = String::new();
    text::push_signed_decimal(&mut out, year as i64);
    text::push_char(&mut out, '-');
    text::push_char(&mut out, 'W');
    text::push_zero_padded2(&mut out, week as u64);
    proof {
        assert(out@ =~= format_iso_week_spec(year as int, week as nat));
    }
    out
}

/// A formatted ISO week parses back to the same year and week, for every year
/// and every week number from 1 to 53.
pub proof fn lemma_iso_week_roundtrip(year: i32, week: u32)
    requires
        1 <= week <= 53,
    ensures
        parse_iso_week_spec(format_iso_week_spec(year as int, week as nat)) == Ok::<
            (i32, u32),
            IsoWeekError,
        >((year, week)),
{
    let a = text::signed_decimal(year as int);
    let b = text::zero_padded2(week as nat);
    let s = format_iso_week_spec(year as int, week as nat);
    let m = a.len() as int;
    let mag: nat = if year < 0 {
        (-(year as int)) as nat
    } else {
        year as nat
    };
    text::lemma_decimal(mag);
    text::lemma_zero_padded2(week as nat);
    // shape of the year part: digits, except a leading '-' for negative years
    assert forall|i: int| 0 <= i < m && !(year < 0 && i == 0) implies text::is_digit(#[trigger] a[i]) by {
        if year < 0 {
            assert(a[i] == text::decimal(mag)[i - 1]);
        }
    }
    assert(m >= 1);
    assert(s[m] == '-');
    assert(s[m + 1] == 'W');
    assert forall|i: int| 0 <= i < m implies s[i] == a[i] by {}
    assert forall|i: int| 0 <= i < b.len() implies s[m + 2 + i] == b[i] by {}
    assert(week_sep_at(s, m));
    assert forall|i: int, j: int| week_sep_at(s, i) && week_sep_at(s, j) implies i == j by {
        assert forall|x: int| week_sep_at(s, x) implies x == m by {
            if x < m {
                if x + 1 < m {
                    assert(text::is_digit(a[x + 1]));
                }
            } else if x == m + 1 {
            } else if x > m + 1 {
                assert(text::is_digit(b[x - m - 2]));
            }
        }
    }
    assert(single_week_sep(s));
    assert(week_sep_index(s) == m);
    assert(s.subrange(0, m) =~= a);
    assert(s.subrange(m + 2, s.len() as int) =~= b);
    // year part
    if year < 0 {
        assert(a.drop_first() =~= text::decimal(mag));
        assert(text::parse_i32_spec(a) == Some(year));
    } else {
        assert(text::is_digit(a[0]));
        assert(text::unsigned_body(a) == a);
        assert(text::parse_i32_spec(a) == Some(year));
    }
    // week part
    assert(text::is_digit(b[0]));
    assert(text::unsigned_body(b) == b);
    assert(text::parse_u32_spec(b) == Some(week));
}

/// The ISO year and week of today's local date: a week of that ISO year
/// (numbered from 1 to 53, its Monday before week 1 of the next year) whose
/// seven days hold a representable date.
pub fn current_iso_week() -> (r: (i32, u32))
    ensures
        1 <= r.1 <= 53,
        crate::calendar::iso_week_monday(r.0 as int, r.1 as int) < crate::calendar::week1_monday(
            r.0 + 1,
        ),
        exists|d: int|
            crate::calendar::day_in_range(d) && crate::calendar::iso_week_monday(
                r.0 as int,
                r.1 as int,
            ) <= d < crate::calendar::iso_week_monday(r.0 as int, r.1 as int) + 7,
{
    let today = crate::calendar::Date::today_local();
    today.iso_week()
}

} // verus!

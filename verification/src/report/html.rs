//! HTML report renderer, and the escaping of text it places.

use vstd::prelude::*;
use crate::calendar::date_text;
use crate::report::data::{
    BacklogChange,
    BlockedTicket,
    CapacitySummary,
    CsciStatus,
    DeliveryItem,
    DependencyStatus,
    DistractionSummary,
    DocumentStatus,
    DocumentStatusKind,
    LeaveEntry,
    MilestoneStatus,
    Projection,
    ReportData,
    TicketSummary,
    dependency_at_risk,
    dependency_symbol,
    projection_symbol,
    projection_text,
    trend_spec,
};
use crate::report::texts::{
    CsciTexts,
    NumberTexts,
    buffer_magnitude,
    contains_text,
    lemma_contains_around,
    lemma_contains_last3,
    lemma_contains_part,
    lemma_lines_of_contains,
    lines_of,
    plus_signed,
    push_date,
    push_plus_signed,
    report_wf,
    text_or,
    texts_fit,
};
use crate::text::{self, decimal, signed_decimal};

verus! {

/// The HTML text for one character: `&`, `<`, `>` and `"` become entities.
pub open spec fn escape_char(c: char) -> Seq<char> {
    if c == '&' {
        "&amp;"@
    } else if c == '<' {
        "&lt;"@
    } else if c == '>' {
        "&gt;"@
    } else if c == '"' {
        "&quot;"@
    } else {
        seq![c]
    }
}

/// `s` with each character replaced by its HTML text.
pub open spec fn escape_html(s: Seq<char>) -> Seq<char>
    decreases s.len(),
{
    if s.len() == 0 {
        Seq::empty()
    } else {
        escape_html(s.drop_last()) + escape_char(s.last())
    }
}

/// No character of an escaped text is `<`, `>` or `"`.
pub proof fn lemma_escaped_has_no_markup(s: Seq<char>)
    ensures
        forall|i: int|
            0 <= i < escape_html(s).len() ==> {
                let c = #[trigger] escape_html(s)[i];
                c != '<' && c != '>' && c != '"'
            },
    decreases s.len(),
{
    reveal_strlit("&amp;");
    reveal_strlit("&lt;");
    reveal_strlit("&gt;");
    reveal_strlit("&quot;");
    if s.len() > 0 {
        lemma_escaped_has_no_markup(s.drop_last());
        let a = escape_html(s.drop_last());
        let b = escape_char(s.last());
        assert forall|i: int| 0 <= i < escape_html(s).len() implies {
            let c = #[trigger] escape_html(s)[i];
            c != '<' && c != '>' && c != '"'
        } by {
            if i >= a.len() {
                assert(escape_html(s)[i] == b[i - a.len()]);
            } else {
                assert(escape_html(s)[i] == a[i]);
            }
        }
    }
}

/// Decoding escaped HTML text: the entities `&amp;`, `&lt;`, `&gt;` and
/// `&quot;` become the characters they name, read from the front; every other
/// character stays.
pub open spec fn unescape_html(t: Seq<char>) -> Seq<char>
    decreases t.len(),
{
    if t.len() == 0 {
        Seq::empty()
    } else if text::starts_with(t, seq!['&', 'a', 'm', 'p', ';']) {
        seq!['&'] + unescape_html(t.skip(5))
    } else if text::starts_with(t, seq!['&', 'l', 't', ';']) {
        seq!['<'] + unescape_html(t.skip(4))
    } else if text::starts_with(t, seq!['&', 'g', 't', ';']) {
        seq!['>'] + unescape_html(t.skip(4))
    } else if text::starts_with(t, seq!['&', 'q', 'u', 'o', 't', ';']) {
        seq!['"'] + unescape_html(t.skip(6))
    } else {
        seq![t[0]] + unescape_html(t.skip(1))
    }
}

/// Escaping a concatenation escapes each part.
proof fn lemma_escape_concat(a: Seq<char>, b: Seq<char>)
    ensures
        escape_html(a + b) == escape_html(a) + escape_html(b),
    decreases b.len(),
{
    if b.len() == 0 {
        assert(a + b =~= a);
        assert(escape_html(a) + escape_html(b) =~= escape_html(a));
    } else {
        lemma_escape_concat(a, b.drop_last());
        assert((a + b).drop_last() =~= a + b.drop_last());
        assert((a + b).last() == b.last());
        assert(escape_html(a + b) =~= escape_html(a) + escape_html(b));
    }
}

/// Decoding the text of one character followed by more text gives the
/// character, then the decoding of the rest.
proof fn lemma_unescape_char(c: char, rest: Seq<char>)
    ensures
        unescape_html(escape_char(c) + rest) == seq![c] + unescape_html(rest),
{
    reveal_strlit("&amp;");
    reveal_strlit("&lt;");
    reveal_strlit("&gt;");
    reveal_strlit("&quot;");
    let t = escape_char(c) + rest;
    if c == '&' {
        assert(t.subrange(0, 5) =~= seq!['&', 'a', 'm', 'p', ';']);
        assert(t.skip(5) =~= rest);
    } else if c == '<' {
        assert(t[1] == 'l');
        assert(t.subrange(0, 4) =~= seq!['&', 'l', 't', ';']);
        assert(t.skip(4) =~= rest);
    } else if c == '>' {
        assert(t[1] == 'g');
        assert(t.subrange(0, 4) =~= seq!['&', 'g', 't', ';']);
        assert(t.skip(4) =~= rest);
    } else if c == '"' {
        assert(t[1] == 'q');
        assert(t.subrange(0, 6) =~= seq!['&', 'q', 'u', 'o', 't', ';']);
        assert(t.skip(6) =~= rest);
    } else {
        assert(t[0] == c);
        assert(t.skip(1) =~= rest);
    }
}

/// Decoding escaped text gives back exactly the text: no character is lost
/// or escaped twice.
pub proof fn lemma_unescape_escape(s: Seq<char>)
    ensures
        unescape_html(escape_html(s)) == s,
    decreases s.len(),
{
    if s.len() > 0 {
        let rest = s.drop_first();
        assert(s =~= seq![s[0]] + rest);
        lemma_escape_concat(seq![s[0]], rest);
        let one = seq![s[0]];
        assert(one.drop_last() =~= Seq::<char>::empty());
        assert(one.last() == s[0]);
        assert(escape_html(Seq::<char>::empty()) == Seq::<char>::empty());
        assert(escape_html(one) == escape_html(one.drop_last()) + escape_char(one.last()));
        assert(escape_html(one) =~= escape_char(s[0]));
        lemma_unescape_char(s[0], escape_html(rest));
        lemma_unescape_escape(rest);
    }
}

/// `s` with each occurrence of a non-empty `p` replaced by `r`, scanning from
/// the front and not looking again at replaced text (as `str::replace` does).
pub open spec fn replace_all(s: Seq<char>, p: Seq<char>, r: Seq<char>) -> Seq<char>
    decreases s.len(),
{
    if p.len() == 0 || s.len() < p.len() {
        s
    } else if s.subrange(0, p.len() as int) == p {
        r + replace_all(s.skip(p.len() as int), p, r)
    } else {
        seq![s[0]] + replace_all(s.skip(1), p, r)
    }
}

/// One of the four entities starts at index `i` of `t`.
pub open spec fn entity_at(t: Seq<char>, i: int) -> bool {
    let rest = t.skip(i);
    ||| text::starts_with(rest, "&amp;"@)
    ||| text::starts_with(rest, "&lt;"@)
    ||| text::starts_with(rest, "&gt;"@)
    ||| text::starts_with(rest, "&quot;"@)
}

/// Whether `c` is written plainly again after `k` of the four decoding
/// steps (`&quot;`, then `&gt;`, then `&lt;`, then `&amp;`).
spec fn restored(c: char, k: int) -> bool {
    ||| k >= 1 && c == '"'
    ||| k >= 2 && c == '>'
    ||| k >= 3 && c == '<'
    ||| k >= 4 && c == '&'
}

/// The text of `c` after `k` decoding steps.
spec fn stage_char(c: char, k: int) -> Seq<char> {
    if restored(c, k) {
        seq![c]
    } else {
        escape_char(c)
    }
}

/// The escaped text of `s` after `k` decoding steps.
spec fn stage_text(s: Seq<char>, k: int) -> Seq<char>
    decreases s.len(),
{
    if s.len() == 0 {
        Seq::empty()
    } else {
        stage_char(s[0], k) + stage_text(s.drop_first(), k)
    }
}

/// The entity decoding step `k` replaces.
spec fn step_pattern(k: int) -> Seq<char> {
    if k == 0 {
        seq!['&', 'q', 'u', 'o', 't', ';']
    } else if k == 1 {
        seq!['&', 'g', 't', ';']
    } else if k == 2 {
        seq!['&', 'l', 't', ';']
    } else {
        seq!['&', 'a', 'm', 'p', ';']
    }
}

/// The character decoding step `k` writes back.
spec fn step_char(k: int) -> char {
    if k == 0 {
        '"'
    } else if k == 1 {
        '>'
    } else if k == 2 {
        '<'
    } else {
        '&'
    }
}

/// Text without the pattern's first character passes through unchanged.
proof fn lemma_replace_plain(t: Seq<char>, rest: Seq<char>, p: Seq<char>, r: Seq<char>)
    requires
        p.len() > 0,
        forall|j: int| 0 <= j < t.len() ==> t[j] != p[0],
    ensures
        replace_all(t + rest, p, r) == t + replace_all(rest, p, r),
    decreases t.len(),
{
    if t.len() > 0 {
        let s = t + rest;
        if s.len() >= p.len() {
            assert(s.subrange(0, p.len() as int)[0] == t[0]);
            assert(s.subrange(0, p.len() as int) != p);
            assert(s.skip(1) =~= t.skip(1) + rest);
            lemma_replace_plain(t.skip(1), rest, p, r);
            assert(t =~= seq![t[0]] + t.skip(1));
            assert(seq![s[0]] + (t.skip(1) + replace_all(rest, p, r)) =~= t + replace_all(
                rest,
                p,
                r,
            ));
        } else {
            assert(s =~= t + rest);
        }
    } else {
        assert(t + rest =~= rest);
        assert(t + replace_all(rest, p, r) =~= replace_all(rest, p, r));
    }
}

/// The pattern at the front is replaced.
proof fn lemma_replace_match(rest: Seq<char>, p: Seq<char>, r: Seq<char>)
    requires
        p.len() > 0,
    ensures
        replace_all(p + rest, p, r) == r + replace_all(rest, p, r),
{
    let s = p + rest;
    assert(s.subrange(0, p.len() as int) =~= p);
    assert(s.skip(p.len() as int) =~= rest);
}

/// An entity other than the pattern passes through unchanged.
proof fn lemma_replace_other(e: Seq<char>, rest: Seq<char>, p: Seq<char>, r: Seq<char>, i: int)
    requires
        p.len() > 0,
        0 < i < e.len(),
        i < p.len(),
        e[i] != p[i],
        forall|j: int| 1 <= j < e.len() ==> e[j] != p[0],
    ensures
        replace_all(e + rest, p, r) == e + replace_all(rest, p, r),
{
    let s = e + rest;
    if s.len() >= p.len() {
        assert(s.subrange(0, p.len() as int)[i] == e[i]);
        assert(s.subrange(0, p.len() as int) != p);
        assert(s.skip(1) =~= e.skip(1) + rest);
        lemma_replace_plain(e.skip(1), rest, p, r);
        assert(seq![s[0]] + (e.skip(1) + replace_all(rest, p, r)) =~= e + replace_all(
            rest,
            p,
            r,
        ));
    }
}

/// One decoding step turns the text after `k` steps into the text after
/// `k + 1` steps.
proof fn lemma_decode_step(s: Seq<char>, k: int)
    requires
        0 <= k < 4,
    ensures
        replace_all(stage_text(s, k), step_pattern(k), seq![step_char(k)]) == stage_text(s, k + 1),
    decreases s.len(),
{
    reveal_strlit("&amp;");
    reveal_strlit("&lt;");
    reveal_strlit("&gt;");
    reveal_strlit("&quot;");
    let p = step_pattern(k);
    let r = seq![step_char(k)];
    if s.len() > 0 {
        let c = s[0];
        let rest = s.drop_first();
        let e = stage_char(c, k);
        lemma_decode_step(rest, k);
        let tail = stage_text(rest, k);
        assert(stage_text(s, k) == e + tail);
        assert(stage_text(s, k + 1) == stage_char(c, k + 1) + stage_text(rest, k + 1));
        if c == step_char(k) {
            assert(e =~= p);
            lemma_replace_match(tail, p, r);
        } else if restored(c, k) || (c != '&' && c != '<' && c != '>' && c != '"') {
            assert(e =~= seq![c]);
            assert(stage_char(c, k + 1) == e);
            lemma_replace_plain(e, tail, p, r);
        } else {
            assert(stage_char(c, k + 1) == e);
            assert(e =~= escape_char(c));
            assert(e[1] != p[1]);
            lemma_replace_other(e, tail, p, r, 1);
        }
    }
}

/// Before any decoding step, the text is the escaped text.
proof fn lemma_stage_start(s: Seq<char>)
    ensures
        stage_text(s, 0) == escape_html(s),
    decreases s.len(),
{
    if s.len() > 0 {
        let rest = s.drop_first();
        lemma_stage_start(rest);
        assert(s =~= seq![s[0]] + rest);
        lemma_escape_concat(seq![s[0]], rest);
        let one = seq![s[0]];
        assert(one.drop_last() =~= Seq::<char>::empty());
        assert(escape_html(one) == escape_html(one.drop_last()) + escape_char(one.last()));
        assert(escape_html(one) =~= escape_char(s[0]));
    }
}

/// After all four decoding steps, the text is the original text.
proof fn lemma_stage_end(s: Seq<char>)
    ensures
        stage_text(s, 4) == s,
    decreases s.len(),
{
    if s.len() > 0 {
        lemma_stage_end(s.drop_first());
        assert(s =~= seq![s[0]] + s.drop_first());
    }
}

/// Every `&` of the text after no decoding step starts an entity.
proof fn lemma_stage_entities(s: Seq<char>)
    ensures
        forall|i: int|
            0 <= i < stage_text(s, 0).len() && #[trigger] stage_text(s, 0)[i] == '&'
                ==> entity_at(stage_text(s, 0), i),
    decreases s.len(),
{
    reveal_strlit("&amp;");
    reveal_strlit("&lt;");
    reveal_strlit("&gt;");
    reveal_strlit("&quot;");
    if s.len() > 0 {
        let rest = s.drop_first();
        lemma_stage_entities(rest);
        let e = stage_char(s[0], 0);
        let tail = stage_text(rest, 0);
        let t = stage_text(s, 0);
        assert(t == e + tail);
        assert forall|i: int| 0 <= i < t.len() && #[trigger] t[i] == '&' implies entity_at(t, i) by {
            if i < e.len() {
                assert(e[i] == '&');
                assert(i == 0);
                assert(t.skip(0) =~= t);
                assert(t.subrange(0, e.len() as int) =~= e);
            } else {
                let j = i - e.len();
                assert(tail[j] == t[i]);
                assert(entity_at(tail, j));
                assert(t.skip(i) =~= tail.skip(j));
            }
        }
    }
}

/// Every `&` of an escaped text starts one of the four entities, and
/// replacing `&quot;`, then `&gt;`, then `&lt;`, and last `&amp;` by the
/// characters they name gives back exactly the original text: `&` is
/// escaped first, and no character is escaped twice.
pub proof fn lemma_replace_chain(s: Seq<char>)
    ensures
        forall|i: int|
            0 <= i < escape_html(s).len() && #[trigger] escape_html(s)[i] == '&' ==> entity_at(
                escape_html(s),
                i,
            ),
        replace_all(
            replace_all(
                replace_all(replace_all(escape_html(s), "&quot;"@, "\""@), "&gt;"@, ">"@),
                "&lt;"@,
                "<"@,
            ),
            "&amp;"@,
            "&"@,
        ) == s,
{
    reveal_strlit("&amp;");
    reveal_strlit("&lt;");
    reveal_strlit("&gt;");
    reveal_strlit("&quot;");
    reveal_strlit("\"");
    reveal_strlit(">");
    reveal_strlit("<");
    reveal_strlit("&");
    lemma_stage_start(s);
    lemma_stage_entities(s);
    assert("&quot;"@ =~= step_pattern(0));
    assert("&gt;"@ =~= step_pattern(1));
    assert("&lt;"@ =~= step_pattern(2));
    assert("&amp;"@ =~= step_pattern(3));
    assert("\""@ =~= seq![step_char(0)]);
    assert(">"@ =~= seq![step_char(1)]);
    assert("<"@ =~= seq![step_char(2)]);
    assert("&"@ =~= seq![step_char(3)]);
    lemma_decode_step(s, 0);
    lemma_decode_step(s, 1);
    lemma_decode_step(s, 2);
    lemma_decode_step(s, 3);
    lemma_stage_end(s);
}

/// Escapes `&`, `<`, `>` and `"` for use in HTML text and attributes.
pub fn html_escape(s: &str) -> (r: String)
    ensures
        r@ == escape_html(s@),
{
    let v = text::chars_of(s);
    let mut out = String::new();
    let mut i: usize = 0;
    while i < v.len()
        invariant
            i <= v.len(),
            v@ == s@,
            out@ == escape_html(v@.take(i as int)),
        decreases v.len() - i,
    {
        let c = v[i];
        proof {
            assert(v@.take(i + 1).drop_last() =~= v@.take(i as int));
        }
        if c == '&' {
            text::push_str(&mut out, "&amp;");
        } else if c == '<' {
            text::push_str(&mut out, "&lt;");
        } else if c == '>' {
            text::push_str(&mut out, "&gt;");
        } else if c == '"' {
            text::push_str(&mut out, "&quot;");
        } else {
            text::push_char(&mut out, c);
            proof {
                assert(out@ =~= escape_html(v@.take(i as int)) + seq![c]);
            }
        }
        i = i + 1;
    }
    proof {
        assert(v@.take(i as int) =~= v@);
    }
    out
}


// ---------------------------------------------------------------------------
// The HTML report
// ---------------------------------------------------------------------------

/// Document head with the inline style sheet, up to the opening `<body>`.
pub const HTML_HEADER: &'static str = "<!DOCTYPE html>\n<html lang=\"en\">\n<head>\n    <meta charset=\"UTF-8\">\n    <meta name=\"viewport\" content=\"width=device-width, initial-scale=1.0\">\n    <title>DeltaV Report</title>\n    <style>\n        :root {\n            --bg: #ffffff;\n            --fg: #1a1a1a;\n            --accent: #2563eb;\n            --good: #16a34a;\n            --warn: #ca8a04;\n            --bad: #dc2626;\n            --muted: #6b7280;\n            --border: #e5e7eb;\n        }\n        * { box-sizing: border-box; margin: 0; padding: 0; }\n        body {\n            font-family: -apple-system, BlinkMacSystemFont, 'Segoe UI', Roboto, sans-serif;\n            font-size: 14px;\n            line-height: 1.5;\n            color: var(--fg);\n            background: var(--bg);\n            max-width: 800px;\n            margin: 0 auto;\n            padding: 2rem;\n        }\n        .page { margin-bottom: 3rem; }\n        .page-break { page-break-after: always; }\n        header { margin-bottom: 2rem; border-bottom: 2px solid var(--accent); padding-bottom: 1rem; }\n        h1 { font-size: 1.5rem; font-weight: 600; }\n        h2 { font-size: 1.1rem; font-weight: 600; margin: 1.5rem 0 0.75rem; color: var(--accent); }\n        h3 { font-size: 1rem; font-weight: 600; margin-bottom: 0.5rem; }\n        .subtitle { color: var(--muted); margin-top: 0.25rem; }\n        section { margin-bottom: 1.5rem; }\n        table { width: 100%; border-collapse: collapse; margin: 0.5rem 0; }\n        th, td { padding: 0.5rem; text-align: left; border-bottom: 1px solid var(--border); }\n        th { font-weight: 600; background: #f9fafb; }\n        ul { list-style: none; }\n        li { padding: 0.25rem 0; }\n        .check { color: var(--good); }\n        .trend { color: var(--muted); }\n        .good { color: var(--good); }\n        .warn { color: var(--warn); }\n        .bad { color: var(--bad); }\n        .empty { color: var(--muted); font-style: italic; }\n        .note { color: var(--muted); font-size: 0.9rem; }\n        .was-blocked { color: var(--muted); font-size: 0.9rem; }\n        .blocked-on { color: var(--bad); font-style: italic; }\n        .target { font-weight: normal; color: var(--muted); float: right; }\n        .csci { background: #f9fafb; padding: 1rem; border-radius: 0.5rem; margin: 1rem 0; }\n        .progress-container {\n            background: var(--border);\n            border-radius: 0.25rem;\n            height: 1.5rem;\n            position: relative;\n            margin: 0.5rem 0;\n        }\n        .progress-bar {\n            background: var(--accent);\n            height: 100%;\n            border-radius: 0.25rem;\n            transition: width 0.3s;\n        }\n        .progress-label {\n            position: absolute;\n            right: 0.5rem;\n            top: 50%;\n            transform: translateY(-50%);\n            font-weight: 600;\n            font-size: 0.8rem;\n        }\n        .glossary { background: #f9fafb; padding: 1rem; border-radius: 0.5rem; margin-top: 2rem; }\n        .glossary dt { font-weight: 600; margin-top: 0.5rem; }\n        .glossary dd { color: var(--muted); margin-left: 1rem; }\n        @media print {\n            body { padding: 0; max-width: none; }\n            .page-break { page-break-after: always; }\n        }\n    </style>\n</head>\n<body>\n";

/// Closing of the document.
pub const HTML_FOOTER: &'static str = "\n</body>\n</html>\n";

/// Glossary closing the second page.
pub const HTML_GLOSSARY: &'static str = "<section class=\"glossary\">\n<h2>Metrics Glossary</h2>\n<dl>\n<dt>Tier 1 (Integration-Ready)</dt><dd>Code complete, unit tested, CI passing, ready for HIL integration.</dd>\n<dt>Tier 2 (HIL-Passed)</dt><dd>Successfully tested in hardware-in-the-loop environment, approved for formal release.</dd>\n<dt>T-Shirt Sizing</dt><dd>XS=1pt (&lt;2hr) | S=2pt (half day) | M=5pt (1-2 days) | L=8pt (3-5 days) | XL=13pt (week+)</dd>\n</dl>\n</section>\n</div>\n";

/// Opening of the first page: title and date range.
#[verifier::opaque]
pub open spec fn html_header(data: ReportData) -> Seq<char> {
    "<div class=\"page\">\n<header>\n<h1>DELTAV WEEKLY REPORT — "@ + escape_html(
        data.meta.project_name@,
    ) + " — "@ + data.meta.week@ + "</h1>\n<p class=\"subtitle\">"@ + date_text(
        data.meta.week_start.day as int,
    ) + " to "@ + date_text(data.meta.week_end.day as int) + "</p>\n</header>\n"@
}

/// One delivery.
pub open spec fn html_delivery(d: DeliveryItem) -> Seq<char> {
    "<li><span class=\"check\">☑</span> <strong>"@ + escape_html(d.id@) + "</strong> — "@
        + escape_html(d.name@) + (if d.was_blocked {
        " <span class=\"was-blocked\">(was blocked)</span>"@
    } else {
        Seq::empty()
    }) + "</li>\n"@
}

/// The deliveries section.
#[verifier::opaque]
pub open spec fn html_deliveries(ds: Seq<DeliveryItem>) -> Seq<char> {
    "<section>\n<h2>Deliveries This Week</h2>\n"@ + (if ds.len() == 0 {
        "<p class=\"empty\">No deliveries this week.</p>\n"@
    } else {
        "<ul class=\"deliveries\">\n"@ + lines_of(ds, |d: DeliveryItem| html_delivery(d))
            + "</ul>\n"@
    }) + "</section>\n"@
}

/// The ticket summary table.
#[verifier::opaque]
pub open spec fn html_tickets(t: TicketSummary, velocity: Seq<char>) -> Seq<char> {
    "<section>\n<h2>Ticket Summary</h2>\n<table class=\"metrics\">\n<tr><td>Closed</td><td><strong>"@
        + decimal(t.closed as nat) + "</strong> <span class=\"trend\">"@ + trend_spec(
        t.closed,
        t.closed_prev,
    ) + "</span> from "@ + decimal(t.closed_prev as nat)
        + "</td></tr>\n<tr><td>Opened</td><td>"@ + decimal(t.opened as nat)
        + "</td></tr>\n<tr><td>Net</td><td><strong>"@ + plus_signed(t.net as int)
        + "</strong> toward done</td></tr>\n<tr><td>Points Delivered</td><td><strong>"@ + decimal(
        t.points_delivered as nat,
    ) + "</strong></td></tr>\n<tr><td>Velocity (4wk avg)</td><td>"@ + velocity
        + "</td></tr>\n</table>\n</section>\n"@
}

/// The backlog section.
#[verifier::opaque]
pub open spec fn html_backlog(b: BacklogChange) -> Seq<char> {
    "<section>\n<h2>Backlog Change</h2>\n<p>Start of week: <strong>"@ + decimal(b.start as nat)
        + "</strong> tickets &rarr; End: <strong>"@ + decimal(b.end as nat)
        + "</strong> tickets</p>\n"@ + (if b.new_work > 0 {
        "<p>New work: "@ + decimal(b.new_work as nat) + " tickets ("@ + escape_html(
            text_or(b.new_work_note, "new work added"@),
        ) + ")</p>\n"@
    } else {
        Seq::empty()
    }) + "</section>\n"@
}

/// One leave entry.
pub open spec fn html_leave(l: LeaveEntry) -> Seq<char> {
    "<li><strong>"@ + escape_html(l.name@) + "</strong>: "@ + escape_html(
        text_or(l.reason, "leave"@),
    ) + " ("@ + decimal(l.capacity_percent as nat) + "% capacity)</li>\n"@
}

/// The leave entries of the capacity section, as a list when there are any.
pub open spec fn html_leave_list(ls: Seq<LeaveEntry>) -> Seq<char> {
    if ls.len() == 0 {
        Seq::empty()
    } else {
        "<ul>\n"@ + lines_of(ls, |l: LeaveEntry| html_leave(l)) + "</ul>\n"@
    }
}

/// The capacity section.
#[verifier::opaque]
pub open spec fn html_capacity(c: CapacitySummary, perf: Seq<char>, met: bool) -> Seq<char> {
    "<section>\n<h2>Capacity Factors</h2>\n"@ + html_leave_list(c.leave@)
        + "<p>Adjusted velocity expectation: <strong>"@ + decimal(c.expected_velocity as nat)
        + "</strong> points</p>\n<p>Actual: <strong class=\""@ + (if met {
        "good"@
    } else {
        "warn"@
    }) + "\">"@ + decimal(c.actual_velocity as nat) + "</strong> points ("@ + perf
        + "% of target)</p>\n</section>\n"@
}

/// One blocked ticket.
pub open spec fn html_blocked(b: BlockedTicket) -> Seq<char> {
    "<li><strong>"@ + escape_html(b.repo@) + "#"@ + decimal(b.number as nat) + "</strong>: "@
        + escape_html(b.title@) + " <span class=\"blocked-on\">blocked on: "@ + escape_html(
        b.blocked_on@,
    ) + "</span></li>\n"@
}

/// The blocked-tickets section.
#[verifier::opaque]
pub open spec fn html_blocked_section(bs: Seq<BlockedTicket>) -> Seq<char> {
    "<section>\n<h2>Blocked / External</h2>\n"@ + (if bs.len() == 0 {
        "<p class=\"empty\">No blocked tickets.</p>\n"@
    } else {
        "<ul class=\"blocked\">\n"@ + lines_of(bs, |b: BlockedTicket| html_blocked(b))
            + "</ul>\n"@
    }) + "</section>\n"@
}

/// One distraction, with its estimated hours when known.
pub open spec fn html_distraction(d: DistractionSummary, hours: Option<String>) -> Seq<char> {
    "<li><strong>"@ + escape_html(d.name@) + "</strong>: "@ + decimal(d.ticket_count as nat)
        + " tickets"@ + match hours {
        Some(h) => ", ~"@ + h@ + "h"@,
        None => Seq::empty(),
    } + "</li>\n"@
}

/// The distraction lines, each with its hours.
pub open spec fn html_distraction_lines(
    ds: Seq<DistractionSummary>,
    hours: Seq<Option<String>>,
) -> Seq<char>
    decreases ds.len(),
{
    if ds.len() == 0 {
        Seq::empty()
    } else {
        html_distraction_lines(ds.drop_last(), hours.drop_last()) + html_distraction(
            ds.last(),
            hours[ds.len() - 1],
        )
    }
}

/// The distractions section, which closes the first page.
#[verifier::opaque]
pub open spec fn html_distractions(ds: Seq<DistractionSummary>, hours: Seq<Option<String>>) -> Seq<
    char,
> {
    "<section>\n<h2>Non-Project Time Sinks</h2>\n"@ + (if ds.len() == 0 {
        "<p class=\"empty\">No non-project work recorded.</p>\n"@
    } else {
        "<ul>\n"@ + html_distraction_lines(ds, hours) + "</ul>\n"@
    }) + "</section>\n</div>\n"@
}

/// The first page.
pub open spec fn html_page1(data: ReportData, nums: NumberTexts) -> Seq<char> {
    html_header(data) + html_deliveries(data.weekly.deliveries@) + html_tickets(
        data.weekly.tickets,
        nums.velocity_avg@,
    ) + html_backlog(data.weekly.backlog) + html_capacity(
        data.weekly.capacity,
        nums.performance_percent@,
        nums.performance_met,
    ) + html_blocked_section(data.weekly.blocked@) + html_distractions(
        data.weekly.distractions@,
        nums.distraction_hours@,
    )
}

/// Opening of the second page: title, timeline and the start of the CSCI section.
#[verifier::opaque]
pub open spec fn html_status_header(data: ReportData, percent_elapsed: Seq<char>) -> Seq<char> {
    "<div class=\"page\">\n<header>\n<h1>PROJECT STATUS — "@ + escape_html(
        data.meta.project_name@,
    ) + "</h1>\n<p class=\"subtitle\">As of "@ + date_text(data.meta.week_end.day as int)
        + " | Day "@ + signed_decimal(data.project.timeline.days_elapsed as int) + " of "@
        + signed_decimal(data.project.timeline.total_days as int) + " ("@ + percent_elapsed
        + "% elapsed)</p>\n</header>\n<section>\n<h2>CSCI Completion</h2>\n<p class=\"note\">Adjusted for backlog completeness estimate.</p>\n"@
}

/// The style class of a projection.
pub open spec fn projection_class(p: Projection) -> Seq<char> {
    match p {
        Projection::OnTrack => "good"@,
        Projection::Complete => "good"@,
        Projection::AtRisk => "warn"@,
        Projection::Behind => "bad"@,
    }
}

/// Title and progress bar of a CSCI.
pub open spec fn html_csci_head(c: CsciStatus, t: CsciTexts) -> Seq<char> {
    "<div class=\"csci\">\n<h3>"@ + escape_html(c.name@) + " ("@ + escape_html(c.id@)
        + ") <span class=\"target\">Target: "@ + date_text(c.target_date.day as int)
        + "</span></h3>\n<div class=\"progress-container\">\n<div class=\"progress-bar\" style=\"width: "@
        + t.bar_width@ + "%\"></div>\n<span class=\"progress-label\">"@ + t.completion@
        + "%</span>\n</div>\n"@
}

/// Tier counts of a CSCI.
pub open spec fn html_csci_tiers(c: CsciStatus) -> Seq<char> {
    "<p><strong>Tier 1</strong> (integration-ready): "@ + decimal(c.tier1_complete as nat) + "/"@
        + decimal(c.total_tickets as nat) + " | <strong>Tier 2</strong> (HIL-passed): "@ + decimal(
        c.tier2_complete as nat,
    ) + "/"@ + decimal(c.total_tickets as nat) + "</p>\n"@
}

/// Projection line of a CSCI, closing its block.
pub open spec fn html_csci_projection(c: CsciStatus) -> Seq<char> {
    "<p class=\""@ + projection_class(c.projection) + "\">Projection: "@ + projection_symbol(
        c.projection,
    ) + " "@ + projection_text(c.projection) + " ("@ + decimal(buffer_magnitude(c)) + " days "@
        + (if c.buffer_days >= 0 {
        "buffer"@
    } else {
        "behind"@
    }) + ")</p>\n</div>\n"@
}

/// Tiers and projection of a CSCI.
pub open spec fn html_csci_tail(c: CsciStatus) -> Seq<char> {
    html_csci_tiers(c) + html_csci_projection(c)
}

/// The CSCI blocks, each with its texts.
pub open spec fn html_csci_lines(cs: Seq<CsciStatus>, ts: Seq<CsciTexts>) -> Seq<char>
    decreases cs.len(),
{
    if cs.len() == 0 {
        Seq::empty()
    } else {
        html_csci_lines(cs.drop_last(), ts.drop_last()) + html_csci_head(
            cs.last(),
            ts[cs.len() - 1],
        ) + html_csci_tail(cs.last())
    }
}

/// Identity cells of a dependency row.
pub open spec fn html_dependency_names(d: DependencyStatus) -> Seq<char> {
    "<tr><td>"@ + escape_html(d.id@) + "</td><td>"@ + escape_html(d.name@) + "</td><td>"@
        + escape_html(d.owner@) + "</td>"@
}

/// Delivery cells of a dependency row.
pub open spec fn html_dependency_dates(d: DependencyStatus) -> Seq<char> {
    "<td class=\""@ + (if d.rc_received {
        "good"@
    } else if dependency_at_risk(d.status) {
        "bad"@
    } else {
        Seq::empty()
    }) + "\">"@ + (if d.rc_received {
        "✓"@
    } else {
        dependency_symbol(d.status)
    }) + " "@ + date_text(d.rc_due.day as int) + "</td><td>"@ + (if d.final_received {
        "✓"@
    } else {
        "○"@
    }) + " "@ + date_text(d.final_due.day as int) + "</td></tr>\n"@
}

/// One dependency row.
pub open spec fn html_dependency(d: DependencyStatus) -> Seq<char> {
    html_dependency_names(d) + html_dependency_dates(d)
}

/// The dependencies section.
#[verifier::opaque]
pub open spec fn html_dependencies(ds: Seq<DependencyStatus>) -> Seq<char> {
    "<section>\n<h2>External Dependencies</h2>\n"@ + (if ds.len() == 0 {
        "<p class=\"empty\">No external dependencies.</p>\n"@
    } else {
        "<table class=\"deps\">\n<tr><th>ID</th><th>Name</th><th>Owner</th><th>RC</th><th>Final</th></tr>\n"@
            + lines_of(ds, |d: DependencyStatus| html_dependency(d)) + "</table>\n"@
    }) + "</section>\n"@
}

/// Style class and status text of a document.
pub open spec fn html_document_status(d: DocumentStatus) -> (Seq<char>, Seq<char>) {
    match d.status {
        DocumentStatusKind::Complete => ("good"@, "✓ Complete"@),
        DocumentStatusKind::InProgress => (
            Seq::empty(),
            "◐ In progress, due "@ + date_text(d.due_date.day as int),
        ),
        DocumentStatusKind::NotStarted => (
            Seq::empty(),
            "○ Not started, due "@ + date_text(d.due_date.day as int),
        ),
        DocumentStatusKind::Overdue => (
            "bad"@,
            "✗ Overdue (was due "@ + date_text(d.due_date.day as int) + ")"@,
        ),
    }
}

/// One document.
pub open spec fn html_document(d: DocumentStatus) -> Seq<char> {
    "<li class=\""@ + html_document_status(d).0 + "\"><strong>"@ + escape_html(d.name@)
        + "</strong> ("@ + escape_html(d.id@) + "): "@ + html_document_status(d).1 + "</li>\n"@
}

/// The documents section.
#[verifier::opaque]
pub open spec fn html_documents(ds: Seq<DocumentStatus>) -> Seq<char> {
    "<section>\n<h2>Documents</h2>\n"@ + (if ds.len() == 0 {
        "<p class=\"empty\">No documents tracked.</p>\n"@
    } else {
        "<ul>\n"@ + lines_of(ds, |d: DocumentStatus| html_document(d)) + "</ul>\n"@
    }) + "</section>\n"@
}

/// One milestone.
pub open spec fn html_milestone(m: MilestoneStatus) -> Seq<char> {
    "<li><strong>"@ + date_text(m.date.day as int) + "</strong>: "@ + escape_html(m.name@)
        + " ("@ + signed_decimal(m.days_until as int) + " days)</li>\n"@
}

/// The milestones section.
#[verifier::opaque]
pub open spec fn html_milestones(ms: Seq<MilestoneStatus>) -> Seq<char> {
    "<section>\n<h2>Upcoming Milestones</h2>\n"@ + (if ms.len() == 0 {
        "<p class=\"empty\">No upcoming milestones.</p>\n"@
    } else {
        "<ul>\n"@ + lines_of(ms, |m: MilestoneStatus| html_milestone(m)) + "</ul>\n"@
    }) + "</section>\n"@
}

/// The second page.
pub open spec fn html_page2(data: ReportData, nums: NumberTexts) -> Seq<char> {
    html_status_header(data, nums.percent_elapsed@) + html_csci_lines(
        data.project.cscis@,
        nums.cscis@,
    ) + "</section>\n"@ + html_dependencies(data.project.dependencies@) + html_documents(
        data.project.documents@,
    ) + html_milestones(data.project.milestones@) + HTML_GLOSSARY@
}

/// The whole HTML report: the page head, the two pages with a page break
/// between them, and the closing tags.
pub open spec fn html_report(data: ReportData, nums: NumberTexts) -> Seq<char> {
    HTML_HEADER@ + html_page1(data, nums) + "<div class=\"page-break\"></div>"@ + html_page2(
        data,
        nums,
    ) + HTML_FOOTER@
}

/// Appends the escaped text of `s`.
fn push_escaped(out: &mut String, s: &str)
    ensures
        final(out)@ == old(out)@ + escape_html(s@),
{
    let e = html_escape(s);
    text::push_str(out, e.as_str());
}

fn push_header(out: &mut String, data: &ReportData)
    requires
        report_wf(*data),
    ensures
        final(out)@ == old(out)@ + html_header(*data),
{
    proof {
        reveal(html_header);
    }
    text::push_str(out, "<div class=\"page\">\n<header>\n<h1>DELTAV WEEKLY REPORT — ");
    push_escaped(out, data.meta.project_name.as_str());
    text::push_str(out, " — ");
    text::push_str(out, data.meta.week.as_str());
    text::push_str(out, "</h1>\n<p class=\"subtitle\">");
    push_date(out, data.meta.week_start);
    text::push_str(out, " to ");
    push_date(out, data.meta.week_end);
    text::push_str(out, "</p>\n</header>\n");
    proof {
        assert(final(out)@ =~= old(out)@ + html_header(*data));
    }
}

fn push_delivery(out: &mut String, d: &DeliveryItem)
    ensures
        final(out)@ == old(out)@ + html_delivery(*d),
{
    text::push_str(out, "<li><span class=\"check\">☑</span> <strong>");
    push_escaped(out, d.id.as_str());
    text::push_str(out, "</strong> — ");
    push_escaped(out, d.name.as_str());
    if d.was_blocked {
        text::push_str(out, " <span class=\"was-blocked\">(was blocked)</span>");
    }
    text::push_str(out, "</li>\n");
    proof {
        assert(final(out)@ =~= old(out)@ + html_delivery(*d));
    }
}

fn push_deliveries(out: &mut String, ds: &Vec<DeliveryItem>)
    ensures
        final(out)@ == old(out)@ + html_deliveries(ds@),
{
    proof {
        reveal(html_deliveries);
    }
    text::push_str(out, "<section>\n<h2>Deliveries This Week</h2>\n");
    if ds.len() == 0 {
        text::push_str(out, "<p class=\"empty\">No deliveries this week.</p>\n");
    } else {
        text::push_str(out, "<ul class=\"deliveries\">\n");
        let ghost start = out@;
        let mut i: usize = 0;
        while i < ds.len()
            invariant
                i <= ds.len(),
                out@ == start + lines_of(ds@.take(i as int), |d: DeliveryItem| html_delivery(d)),
            decreases ds.len() - i,
        {
            push_delivery(out, &ds[i]);
            proof {
                assert(ds@.take(i + 1).drop_last() =~= ds@.take(i as int));
                assert(out@ =~= start + lines_of(
                    ds@.take(i + 1),
                    |d: DeliveryItem| html_delivery(d),
                ));
            }
            i = i + 1;
        }
        proof {
            assert(ds@.take(i as int) =~= ds@);
        }
        text::push_str(out, "</ul>\n");
    }
    text::push_str(out, "</section>\n");
    proof {
        assert(final(out)@ =~= old(out)@ + html_deliveries(ds@));
    }
}

fn push_tickets(out: &mut String, t: &TicketSummary, velocity: &str)
    ensures
        final(out)@ == old(out)@ + html_tickets(*t, velocity@),
{
    proof {
        reveal(html_tickets);
    }
    text::push_str(
        out,
        "<section>\n<h2>Ticket Summary</h2>\n<table class=\"metrics\">\n<tr><td>Closed</td><td><strong>",
    );
    text::push_decimal(out, t.closed as u64);
    text::push_str(out, "</strong> <span class=\"trend\">");
    text::push_str(out, t.closed_trend());
    text::push_str(out, "</span> from ");
    text::push_decimal(out, t.closed_prev as u64);
    text::push_str(out, "</td></tr>\n<tr><td>Opened</td><td>");
    text::push_decimal(out, t.opened as u64);
    text::push_str(out, "</td></tr>\n<tr><td>Net</td><td><strong>");
    push_plus_signed(out, t.net as i64);
    text::push_str(out, "</strong> toward done</td></tr>\n<tr><td>Points Delivered</td><td><strong>");
    text::push_decimal(out, t.points_delivered as u64);
    text::push_str(out, "</strong></td></tr>\n<tr><td>Velocity (4wk avg)</td><td>");
    text::push_str(out, velocity);
    text::push_str(out, "</td></tr>\n</table>\n</section>\n");
    proof {
        assert(final(out)@ =~= old(out)@ + html_tickets(*t, velocity@));
    }
}

fn push_backlog(out: &mut String, b: &BacklogChange)
    ensures
        final(out)@ == old(out)@ + html_backlog(*b),
{
    proof {
        reveal(html_backlog);
    }
    text::push_str(out, "<section>\n<h2>Backlog Change</h2>\n<p>Start of week: <strong>");
    text::push_decimal(out, b.start as u64);
    text::push_str(out, "</strong> tickets &rarr; End: <strong>");
    text::push_decimal(out, b.end as u64);
    text::push_str(out, "</strong> tickets</p>\n");
    if b.new_work > 0 {
        text::push_str(out, "<p>New work: ");
        text::push_decimal(out, b.new_work as u64);
        text::push_str(out, " tickets (");
        match &b.new_work_note {
            Some(n) => push_escaped(out, n.as_str()),
            None => push_escaped(out, "new work added"),
        }
        text::push_str(out, ")</p>\n");
    }
    text::push_str(out, "</section>\n");
    proof {
        assert(final(out)@ =~= old(out)@ + html_backlog(*b));
    }
}

fn push_leave(out: &mut String, l: &LeaveEntry)
    ensures
        final(out)@ == old(out)@ + html_leave(*l),
{
    text::push_str(out, "<li><strong>");
    push_escaped(out, l.name.as_str());
    text::push_str(out, "</strong>: ");
    match &l.reason {
        Some(r) => push_escaped(out, r.as_str()),
        None => push_escaped(out, "leave"),
    }
    text::push_str(out, " (");
    text::push_decimal(out, l.capacity_percent as u64);
    text::push_str(out, "% capacity)</li>\n");
    proof {
        assert(final(out)@ =~= old(out)@ + html_leave(*l));
    }
}

fn push_leave_list(out: &mut String, ls: &Vec<LeaveEntry>)
    ensures
        final(out)@ == old(out)@ + html_leave_list(ls@),
{
    if ls.len() > 0 {
        text::push_str(out, "<ul>\n");
        let ghost start = out@;
        let mut i: usize = 0;
        while i < ls.len()
            invariant
                i <= ls.len(),
                out@ == start + lines_of(ls@.take(i as int), |l: LeaveEntry| html_leave(l)),
            decreases ls.len() - i,
        {
            push_leave(out, &ls[i]);
            proof {
                assert(ls@.take(i + 1).drop_last() =~= ls@.take(i as int));
                assert(out@ =~= start + lines_of(ls@.take(i + 1), |l: LeaveEntry| html_leave(l)));
            }
            i = i + 1;
        }
        proof {
            assert(ls@.take(i as int) =~= ls@);
        }
        text::push_str(out, "</ul>\n");
    }
    proof {
        assert(final(out)@ =~= old(out)@ + html_leave_list(ls@));
    }
}

fn push_capacity(out: &mut String, c: &CapacitySummary, perf: &str, met: bool)
    ensures
        final(out)@ == old(out)@ + html_capacity(*c, perf@, met),
{
    proof {
        reveal(html_capacity);
    }
    text::push_str(out, "<section>\n<h2>Capacity Factors</h2>\n");
    push_leave_list(out, &c.leave);
    text::push_str(out, "<p>Adjusted velocity expectation: <strong>");
    text::push_decimal(out, c.expected_velocity as u64);
    text::push_str(out, "</strong> points</p>\n<p>Actual: <strong class=\"");
    if met {
        text::push_str(out, "good");
    } else {
        text::push_str(out, "warn");
    }
    text::push_str(out, "\">");
    text::push_decimal(out, c.actual_velocity as u64);
    text::push_str(out, "</strong> points (");
    text::push_str(out, perf);
    text::push_str(out, "% of target)</p>\n</section>\n");
    proof {
        assert(final(out)@ =~= old(out)@ + html_capacity(*c, perf@, met));
    }
}

fn push_blocked_line(out: &mut String, b: &BlockedTicket)
    ensures
        final(out)@ == old(out)@ + html_blocked(*b),
{
    text::push_str(out, "<li><strong>");
    push_escaped(out, b.repo.as_str());
    text::push_str(out, "#");
    text::push_decimal(out, b.number);
    text::push_str(out, "</strong>: ");
    push_escaped(out, b.title.as_str());
    text::push_str(out, " <span class=\"blocked-on\">blocked on: ");
    push_escaped(out, b.blocked_on.as_str());
    text::push_str(out, "</span></li>\n");
    proof {
        assert(final(out)@ =~= old(out)@ + html_blocked(*b));
    }
}

fn push_blocked(out: &mut String, bs: &Vec<BlockedTicket>)
    ensures
        final(out)@ == old(out)@ + html_blocked_section(bs@),
{
    proof {
        reveal(html_blocked_section);
    }
    text::push_str(out, "<section>\n<h2>Blocked / External</h2>\n");
    if bs.len() == 0 {
        text::push_str(out, "<p class=\"empty\">No blocked tickets.</p>\n");
    } else {
        text::push_str(out, "<ul class=\"blocked\">\n");
        let ghost start = out@;
        let mut i: usize = 0;
        while i < bs.len()
            invariant
                i <= bs.len(),
                out@ == start + lines_of(bs@.take(i as int), |b: BlockedTicket| html_blocked(b)),
            decreases bs.len() - i,
        {
            push_blocked_line(out, &bs[i]);
            proof {
                assert(bs@.take(i + 1).drop_last() =~= bs@.take(i as int));
                assert(out@ =~= start + lines_of(
                    bs@.take(i + 1),
                    |b: BlockedTicket| html_blocked(b),
                ));
            }
            i = i + 1;
        }
        proof {
            assert(bs@.take(i as int) =~= bs@);
        }
        text::push_str(out, "</ul>\n");
    }
    text::push_str(out, "</section>\n");
    proof {
        assert(final(out)@ =~= old(out)@ + html_blocked_section(bs@));
    }
}

fn push_distraction(out: &mut String, d: &DistractionSummary, hours: &Option<String>)
    ensures
        final(out)@ == old(out)@ + html_distraction(*d, *hours),
{
    text::push_str(out, "<li><strong>");
    push_escaped(out, d.name.as_str());
    text::push_str(out, "</strong>: ");
    text::push_decimal(out, d.ticket_count as u64);
    text::push_str(out, " tickets");
    match hours {
        Some(h) => {
            text::push_str(out, ", ~");
            text::push_str(out, h.as_str());
            text::push_str(out, "h");
        },
        None => {},
    }
    text::push_str(out, "</li>\n");
    proof {
        assert(final(out)@ =~= old(out)@ + html_distraction(*d, *hours));
    }
}

fn push_distractions(out: &mut String, ds: &Vec<DistractionSummary>, hours: &Vec<Option<String>>)
    requires
        hours.len() == ds.len(),
    ensures
        final(out)@ == old(out)@ + html_distractions(ds@, hours@),
{
    proof {
        reveal(html_distractions);
    }
    text::push_str(out, "<section>\n<h2>Non-Project Time Sinks</h2>\n");
    if ds.len() == 0 {
        text::push_str(out, "<p class=\"empty\">No non-project work recorded.</p>\n");
    } else {
        text::push_str(out, "<ul>\n");
        let ghost start = out@;
        let mut i: usize = 0;
        while i < ds.len()
            invariant
                i <= ds.len() == hours.len(),
                out@ == start + html_distraction_lines(
                    ds@.take(i as int),
                    hours@.take(i as int),
                ),
            decreases ds.len() - i,
        {
            push_distraction(out, &ds[i], &hours[i]);
            proof {
                assert(ds@.take(i + 1).drop_last() =~= ds@.take(i as int));
                assert(hours@.take(i + 1).drop_last() =~= hours@.take(i as int));
                assert(hours@.take(i + 1)[i as int] == hours@[i as int]);
                assert(out@ =~= start + html_distraction_lines(
                    ds@.take(i + 1),
                    hours@.take(i + 1),
                ));
            }
            i = i + 1;
        }
        proof {
            assert(ds@.take(i as int) =~= ds@);
            assert(hours@.take(i as int) =~= hours@);
        }
        text::push_str(out, "</ul>\n");
    }
    text::push_str(out, "</section>\n</div>\n");
    proof {
        assert(final(out)@ =~= old(out)@ + html_distractions(ds@, hours@));
    }
}

fn push_page1(out: &mut String, data: &ReportData, nums: &NumberTexts)
    requires
        report_wf(*data),
        texts_fit(*data, *nums),
    ensures
        final(out)@ == old(out)@ + html_page1(*data, *nums),
{
    push_header(out, data);
    push_deliveries(out, &data.weekly.deliveries);
    push_tickets(out, &data.weekly.tickets, nums.velocity_avg.as_str());
    push_backlog(out, &data.weekly.backlog);
    push_capacity(
        out,
        &data.weekly.capacity,
        nums.performance_percent.as_str(),
        nums.performance_met,
    );
    push_blocked(out, &data.weekly.blocked);
    push_distractions(out, &data.weekly.distractions, &nums.distraction_hours);
    proof {
        assert(final(out)@ =~= old(out)@ + html_page1(*data, *nums));
    }
}

fn push_status_header(out: &mut String, data: &ReportData, percent_elapsed: &str)
    requires
        report_wf(*data),
    ensures
        final(out)@ == old(out)@ + html_status_header(*data, percent_elapsed@),
{
    proof {
        reveal(html_status_header);
    }
    text::push_str(out, "<div class=\"page\">\n<header>\n<h1>PROJECT STATUS — ");
    push_escaped(out, data.meta.project_name.as_str());
    text::push_str(out, "</h1>\n<p class=\"subtitle\">As of ");
    push_date(out, data.meta.week_end);
    text::push_str(out, " | Day ");
    text::push_signed_decimal(out, data.project.timeline.days_elapsed);
    text::push_str(out, " of ");
    text::push_signed_decimal(out, data.project.timeline.total_days);
    text::push_str(out, " (");
    text::push_str(out, percent_elapsed);
    text::push_str(
        out,
        "% elapsed)</p>\n</header>\n<section>\n<h2>CSCI Completion</h2>\n<p class=\"note\">Adjusted for backlog completeness estimate.</p>\n",
    );
    proof {
        assert(final(out)@ =~= old(out)@ + html_status_header(*data, percent_elapsed@));
    }
}

fn push_csci_head(out: &mut String, c: &CsciStatus, t: &CsciTexts)
    requires
        c.target_date.wf(),
    ensures
        final(out)@ == old(out)@ + html_csci_head(*c, *t),
{
    text::push_str(out, "<div class=\"csci\">\n<h3>");
    push_escaped(out, c.name.as_str());
    text::push_str(out, " (");
    push_escaped(out, c.id.as_str());
    text::push_str(out, ") <span class=\"target\">Target: ");
    push_date(out, c.target_date);
    text::push_str(
        out,
        "</span></h3>\n<div class=\"progress-container\">\n<div class=\"progress-bar\" style=\"width: ",
    );
    text::push_str(out, t.bar_width.as_str());
    text::push_str(out, "%\"></div>\n<span class=\"progress-label\">");
    text::push_str(out, t.completion.as_str());
    text::push_str(out, "%</span>\n</div>\n");
    proof {
        assert(final(out)@ =~= old(out)@ + html_csci_head(*c, *t));
    }
}

fn push_csci_tiers(out: &mut String, c: &CsciStatus)
    ensures
        final(out)@ == old(out)@ + html_csci_tiers(*c),
{
    text::push_str(out, "<p><strong>Tier 1</strong> (integration-ready): ");
    text::push_decimal(out, c.tier1_complete as u64);
    text::push_str(out, "/");
    text::push_decimal(out, c.total_tickets as u64);
    text::push_str(out, " | <strong>Tier 2</strong> (HIL-passed): ");
    text::push_decimal(out, c.tier2_complete as u64);
    text::push_str(out, "/");
    text::push_decimal(out, c.total_tickets as u64);
    text::push_str(out, "</p>\n");
    proof {
        assert(final(out)@ =~= old(out)@ + html_csci_tiers(*c));
    }
}

#[verifier::rlimit(30)]
fn push_csci_projection(out: &mut String, c: &CsciStatus)
    requires
        c.buffer_days > i64::MIN,
    ensures
        final(out)@ == old(out)@ + html_csci_projection(*c),
{
    text::push_str(out, "<p class=\"");
    match c.projection {
        Projection::OnTrack | Projection::Complete => text::push_str(out, "good"),
        Projection::AtRisk => text::push_str(out, "warn"),
        Projection::Behind => text::push_str(out, "bad"),
    }
    text::push_str(out, "\">Projection: ");
    text::push_str(out, c.projection.symbol());
    text::push_str(out, " ");
    text::push_str(out, c.projection.as_str());
    text::push_str(out, " (");
    let magnitude: u64 = if c.buffer_days < 0 {
        (-c.buffer_days) as u64
    } else {
        c.buffer_days as u64
    };
    text::push_decimal(out, magnitude);
    text::push_str(out, " days ");
    if c.buffer_days >= 0 {
        text::push_str(out, "buffer");
    } else {
        text::push_str(out, "behind");
    }
    text::push_str(out, ")</p>\n</div>\n");
    proof {
        assert(final(out)@ =~= old(out)@ + html_csci_projection(*c));
    }
}

fn push_csci_tail(out: &mut String, c: &CsciStatus)
    requires
        c.buffer_days > i64::MIN,
    ensures
        final(out)@ == old(out)@ + html_csci_tail(*c),
{
    push_csci_tiers(out, c);
    push_csci_projection(out, c);
    proof {
        assert(final(out)@ =~= old(out)@ + html_csci_tail(*c));
    }
}

fn push_cscis(out: &mut String, data: &ReportData, ts: &Vec<CsciTexts>)
    requires
        report_wf(*data),
        ts.len() == data.project.cscis.len(),
    ensures
        final(out)@ == old(out)@ + html_csci_lines(data.project.cscis@, ts@),
{
    let cs = &data.project.cscis;
    let ghost start = out@;
    let mut i: usize = 0;
    while i < cs.len()
        invariant
            i <= cs.len() == ts.len(),
            cs == data.project.cscis,
            report_wf(*data),
            out@ == start + html_csci_lines(cs@.take(i as int), ts@.take(i as int)),
        decreases cs.len() - i,
    {
        proof {
            assert(data.project.cscis@[i as int] == cs@[i as int]);
        }
        push_csci_head(out, &cs[i], &ts[i]);
        push_csci_tail(out, &cs[i]);
        proof {
            assert(cs@.take(i + 1).drop_last() =~= cs@.take(i as int));
            assert(ts@.take(i + 1).drop_last() =~= ts@.take(i as int));
            assert(ts@.take(i + 1)[i as int] == ts@[i as int]);
            assert(out@ =~= start + html_csci_lines(cs@.take(i + 1), ts@.take(i + 1)));
        }
        i = i + 1;
    }
    proof {
        assert(cs@.take(i as int) =~= cs@);
        assert(ts@.take(i as int) =~= ts@);
    }
}

fn push_dependency_names(out: &mut String, d: &DependencyStatus)
    ensures
        final(out)@ == old(out)@ + html_dependency_names(*d),
{
    text::push_str(out, "<tr><td>");
    push_escaped(out, d.id.as_str());
    text::push_str(out, "</td><td>");
    push_escaped(out, d.name.as_str());
    text::push_str(out, "</td><td>");
    push_escaped(out, d.owner.as_str());
    text::push_str(out, "</td>");
    proof {
        assert(final(out)@ =~= old(out)@ + html_dependency_names(*d));
    }
}

fn push_dependency_dates(out: &mut String, d: &DependencyStatus)
    requires
        d.rc_due.wf(),
        d.final_due.wf(),
    ensures
        final(out)@ == old(out)@ + html_dependency_dates(*d),
{
    text::push_str(out, "<td class=\"");
    if d.rc_received {
        text::push_str(out, "good");
    } else if d.status.is_at_risk() {
        text::push_str(out, "bad");
    }
    text::push_str(out, "\">");
    if d.rc_received {
        text::push_str(out, "✓");
    } else {
        text::push_str(out, d.status.symbol());
    }
    text::push_str(out, " ");
    push_date(out, d.rc_due);
    text::push_str(out, "</td><td>");
    if d.final_received {
        text::push_str(out, "✓");
    } else {
        text::push_str(out, "○");
    }
    text::push_str(out, " ");
    push_date(out, d.final_due);
    text::push_str(out, "</td></tr>\n");
    proof {
        assert(final(out)@ =~= old(out)@ + html_dependency_dates(*d));
    }
}

fn push_dependency(out: &mut String, d: &DependencyStatus)
    requires
        d.rc_due.wf(),
        d.final_due.wf(),
    ensures
        final(out)@ == old(out)@ + html_dependency(*d),
{
    push_dependency_names(out, d);
    push_dependency_dates(out, d);
    proof {
        assert(final(out)@ =~= old(out)@ + html_dependency(*d));
    }
}

fn push_dependencies(out: &mut String, data: &ReportData)
    requires
        report_wf(*data),
    ensures
        final(out)@ == old(out)@ + html_dependencies(data.project.dependencies@),
{
    proof {
        reveal(html_dependencies);
    }
    let ds = &data.project.dependencies;
    text::push_str(out, "<section>\n<h2>External Dependencies</h2>\n");
    if ds.len() == 0 {
        text::push_str(out, "<p class=\"empty\">No external dependencies.</p>\n");
    } else {
        text::push_str(
            out,
            "<table class=\"deps\">\n<tr><th>ID</th><th>Name</th><th>Owner</th><th>RC</th><th>Final</th></tr>\n",
        );
        let ghost start = out@;
        let mut i: usize = 0;
        while i < ds.len()
            invariant
                i <= ds.len(),
                ds == data.project.dependencies,
                report_wf(*data),
                out@ == start + lines_of(
                    ds@.take(i as int),
                    |d: DependencyStatus| html_dependency(d),
                ),
            decreases ds.len() - i,
        {
            proof {
                assert(data.project.dependencies@[i as int] == ds@[i as int]);
            }
            push_dependency(out, &ds[i]);
            proof {
                assert(ds@.take(i + 1).drop_last() =~= ds@.take(i as int));
                assert(out@ =~= start + lines_of(
                    ds@.take(i + 1),
                    |d: DependencyStatus| html_dependency(d),
                ));
            }
            i = i + 1;
        }
        proof {
            assert(ds@.take(i as int) =~= ds@);
        }
        text::push_str(out, "</table>\n");
    }
    text::push_str(out, "</section>\n");
    proof {
        assert(final(out)@ =~= old(out)@ + html_dependencies(data.project.dependencies@));
    }
}

fn push_document(out: &mut String, d: &DocumentStatus)
    requires
        d.due_date.wf(),
    ensures
        final(out)@ == old(out)@ + html_document(*d),
{
    text::push_str(out, "<li class=\"");
    match d.status {
        DocumentStatusKind::Complete => text::push_str(out, "good"),
        DocumentStatusKind::Overdue => text::push_str(out, "bad"),
        _ => {},
    }
    text::push_str(out, "\"><strong>");
    push_escaped(out, d.name.as_str());
    text::push_str(out, "</strong> (");
    push_escaped(out, d.id.as_str());
    text::push_str(out, "): ");
    match d.status {
        DocumentStatusKind::Complete => text::push_str(out, "✓ Complete"),
        DocumentStatusKind::InProgress => {
            text::push_str(out, "◐ In progress, due ");
            push_date(out, d.due_date);
        },
        DocumentStatusKind::NotStarted => {
            text::push_str(out, "○ Not started, due ");
            push_date(out, d.due_date);
        },
        DocumentStatusKind::Overdue => {
            text::push_str(out, "✗ Overdue (was due ");
            push_date(out, d.due_date);
            text::push_str(out, ")");
        },
    }
    text::push_str(out, "</li>\n");
    proof {
        assert(final(out)@ =~= old(out)@ + html_document(*d));
    }
}

fn push_documents(out: &mut String, data: &ReportData)
    requires
        report_wf(*data),
    ensures
        final(out)@ == old(out)@ + html_documents(data.project.documents@),
{
    proof {
        reveal(html_documents);
    }
    let ds = &data.project.documents;
    text::push_str(out, "<section>\n<h2>Documents</h2>\n");
    if ds.len() == 0 {
        text::push_str(out, "<p class=\"empty\">No documents tracked.</p>\n");
    } else {
        text::push_str(out, "<ul>\n");
        let ghost start = out@;
        let mut i: usize = 0;
        while i < ds.len()
            invariant
                i <= ds.len(),
                ds == data.project.documents,
                report_wf(*data),
                out@ == start + lines_of(ds@.take(i as int), |d: DocumentStatus| html_document(d)),
            decreases ds.len() - i,
        {
            proof {
                assert(data.project.documents@[i as int] == ds@[i as int]);
            }
            push_document(out, &ds[i]);
            proof {
                assert(ds@.take(i + 1).drop_last() =~= ds@.take(i as int));
                assert(out@ =~= start + lines_of(
                    ds@.take(i + 1),
                    |d: DocumentStatus| html_document(d),
                ));
            }
            i = i + 1;
        }
        proof {
            assert(ds@.take(i as int) =~= ds@);
        }
        text::push_str(out, "</ul>\n");
    }
    text::push_str(out, "</section>\n");
    proof {
        assert(final(out)@ =~= old(out)@ + html_documents(data.project.documents@));
    }
}

fn push_milestone(out: &mut String, m: &MilestoneStatus)
    requires
        m.date.wf(),
    ensures
        final(out)@ == old(out)@ + html_milestone(*m),
{
    text::push_str(out, "<li><strong>");
    push_date(out, m.date);
    text::push_str(out, "</strong>: ");
    push_escaped(out, m.name.as_str());
    text::push_str(out, " (");
    text::push_signed_decimal(out, m.days_until);
    text::push_str(out, " days)</li>\n");
    proof {
        assert(final(out)@ =~= old(out)@ + html_milestone(*m));
    }
}

fn push_milestones(out: &mut String, data: &ReportData)
    requires
        report_wf(*data),
    ensures
        final(out)@ == old(out)@ + html_milestones(data.project.milestones@),
{
    proof {
        reveal(html_milestones);
    }
    let ms = &data.project.milestones;
    text::push_str(out, "<section>\n<h2>Upcoming Milestones</h2>\n");
    if ms.len() == 0 {
        text::push_str(out, "<p class=\"empty\">No upcoming milestones.</p>\n");
    } else {
        text::push_str(out, "<ul>\n");
        let ghost start = out@;
        let mut i: usize = 0;
        while i < ms.len()
            invariant
                i <= ms.len(),
                ms == data.project.milestones,
                report_wf(*data),
                out@ == start + lines_of(
                    ms@.take(i as int),
                    |m: MilestoneStatus| html_milestone(m),
                ),
            decreases ms.len() - i,
        {
            proof {
                assert(data.project.milestones@[i as int] == ms@[i as int]);
            }
            push_milestone(out, &ms[i]);
            proof {
                assert(ms@.take(i + 1).drop_last() =~= ms@.take(i as int));
                assert(out@ =~= start + lines_of(
                    ms@.take(i + 1),
                    |m: MilestoneStatus| html_milestone(m),
                ));
            }
            i = i + 1;
        }
        proof {
            assert(ms@.take(i as int) =~= ms@);
        }
        text::push_str(out, "</ul>\n");
    }
    text::push_str(out, "</section>\n");
    proof {
        assert(final(out)@ =~= old(out)@ + html_milestones(data.project.milestones@));
    }
}

fn push_page2(out: &mut String, data: &ReportData, nums: &NumberTexts)
    requires
        report_wf(*data),
        texts_fit(*data, *nums),
    ensures
        final(out)@ == old(out)@ + html_page2(*data, *nums),
{
    push_status_header(out, data, nums.percent_elapsed.as_str());
    push_cscis(out, data, &nums.cscis);
    text::push_str(out, "</section>\n");
    push_dependencies(out, data);
    push_documents(out, data);
    push_milestones(out, data);
    text::push_str(out, HTML_GLOSSARY);
    proof {
        assert(final(out)@ =~= old(out)@ + html_page2(*data, *nums));
    }
}

/// Renders a report as a self-contained HTML page, with the texts of its
/// floating-point quantities as given.
pub fn render(data: &ReportData, nums: &NumberTexts) -> (r: String)
    requires
        report_wf(*data),
        texts_fit(*data, *nums),
    ensures
        r@ == html_report(*data, *nums),
{
    let mut out = String::new();
    text::push_str(&mut out, HTML_HEADER);
    push_page1(&mut out, data, nums);
    text::push_str(&mut out, "<div class=\"page-break\"></div>");
    push_page2(&mut out, data, nums);
    text::push_str(&mut out, HTML_FOOTER);
    proof {
        assert(out@ =~= html_report(*data, *nums));
    }
    out
}

/// The CSCI blocks hold the tier counts of each CSCI.
proof fn lemma_html_csci_lines_tiers(cs: Seq<CsciStatus>, ts: Seq<CsciTexts>, k: int)
    requires
        0 <= k < cs.len(),
    ensures
        contains_text(html_csci_lines(cs, ts), html_csci_tiers(cs[k])),
    decreases cs.len(),
{
    let n = cs.len() - 1;
    let prev = html_csci_lines(cs.drop_last(), ts.drop_last());
    let head = html_csci_head(cs.last(), ts[n]);
    let proj = html_csci_projection(cs.last());
    if k == n {
        lemma_contains_part(prev + head, html_csci_tiers(cs.last()), proj);
        assert(prev + head + html_csci_tiers(cs.last()) + proj =~= html_csci_lines(cs, ts));
    } else {
        assert(cs.drop_last()[k] == cs[k]);
        lemma_html_csci_lines_tiers(cs.drop_last(), ts.drop_last(), k);
        lemma_contains_around(
            Seq::empty(),
            prev,
            head + html_csci_tail(cs.last()),
            html_csci_tiers(cs[k]),
        );
        assert(Seq::<char>::empty() + prev + (head + html_csci_tail(cs.last())) =~= html_csci_lines(
            cs,
            ts,
        ));
    }
}

/// The HTML report shows, for each CSCI, its Tier 1 count and then its Tier
/// 2 count, each out of its total tickets.
pub proof fn lemma_html_report_shows_tiers(data: ReportData, nums: NumberTexts, k: int)
    requires
        0 <= k < data.project.cscis.len(),
    ensures
        contains_text(
            html_report(data, nums),
            "<p><strong>Tier 1</strong> (integration-ready): "@ + decimal(
                data.project.cscis@[k].tier1_complete as nat,
            ) + "/"@ + decimal(data.project.cscis@[k].total_tickets as nat)
                + " | <strong>Tier 2</strong> (HIL-passed): "@ + decimal(
                data.project.cscis@[k].tier2_complete as nat,
            ) + "/"@ + decimal(data.project.cscis@[k].total_tickets as nat) + "</p>\n"@,
        ),
{
    let c = data.project.cscis@[k];
    let p = html_csci_tiers(c);
    let lines = html_csci_lines(data.project.cscis@, nums.cscis@);
    lemma_html_csci_lines_tiers(data.project.cscis@, nums.cscis@, k);
    let before = HTML_HEADER@ + html_page1(data, nums) + "<div class=\"page-break\"></div>"@
        + html_status_header(data, nums.percent_elapsed@);
    let after = "</section>\n"@ + html_dependencies(data.project.dependencies@) + html_documents(
        data.project.documents@,
    ) + html_milestones(data.project.milestones@) + HTML_GLOSSARY@ + HTML_FOOTER@;
    lemma_contains_around(before, lines, after, p);
    assert(before + lines + after =~= html_report(data, nums));
}

/// The HTML delivery cells of a dependency row, after its owner cell.
spec fn html_dependency_cells(d: DependencyStatus) -> Seq<char> {
    escape_html(d.owner@) + "</td>"@ + ("<td class=\""@ + (if d.rc_received {
        "good"@
    } else if dependency_at_risk(d.status) {
        "bad"@
    } else {
        Seq::empty()
    }) + "\">"@ + (if d.rc_received {
        "✓"@
    } else {
        dependency_symbol(d.status)
    }) + " "@ + date_text(d.rc_due.day as int) + "</td><td>"@ + (if d.final_received {
        "✓"@
    } else {
        "○"@
    }) + " "@ + date_text(d.final_due.day as int) + "</td></tr>\n"@)
}

/// A dependency row holds its delivery cells.
proof fn lemma_html_dependency_cells(d: DependencyStatus)
    ensures
        contains_text(html_dependency(d), html_dependency_cells(d)),
{
    let pre = "<tr><td>"@ + escape_html(d.id@) + "</td><td>"@ + escape_html(d.name@) + "</td><td>"@;
    let owner = escape_html(d.owner@);
    let dates = html_dependency_dates(d);
    lemma_contains_last3(pre, owner, "</td>"@, dates);
    assert(html_dependency(d) == pre + owner + "</td>"@ + dates);
    assert(html_dependency_cells(d) == owner + "</td>"@ + dates);
}

/// The dependencies section holds each dependency's delivery cells.
proof fn lemma_html_dependencies_cells(ds: Seq<DependencyStatus>, k: int)
    requires
        0 <= k < ds.len(),
    ensures
        contains_text(html_dependencies(ds), html_dependency_cells(ds[k])),
{
    let p = html_dependency_cells(ds[k]);
    lemma_html_dependency_cells(ds[k]);
    let f = |x: DependencyStatus| html_dependency(x);
    assert(f(ds[k]) == html_dependency(ds[k]));
    lemma_lines_of_contains(ds, f, k, p);
    let lines = lines_of(ds, f);
    let head = "<section>\n<h2>External Dependencies</h2>\n"@
        + "<table class=\"deps\">\n<tr><th>ID</th><th>Name</th><th>Owner</th><th>RC</th><th>Final</th></tr>\n"@;
    lemma_contains_around(head, lines, "</table>\n"@ + "</section>\n"@, p);
    assert(head + lines + ("</table>\n"@ + "</section>\n"@) =~= html_dependencies(ds)) by {
        reveal(html_dependencies);
    }
}

/// The HTML report shows, in each dependency's row after its owner, the
/// release candidate cell (class `good` and ✓ when received, else class
/// `bad` when at risk and the status symbol) with its due date, then the
/// final cell (✓ when the final version is received, else ○) with its due
/// date.
pub proof fn lemma_html_report_shows_dependency(data: ReportData, nums: NumberTexts, k: int)
    requires
        0 <= k < data.project.dependencies.len(),
    ensures
        contains_text(
            html_report(data, nums),
            escape_html(data.project.dependencies@[k].owner@) + "</td>"@ + ("<td class=\""@ + (if data.project.dependencies@[k].rc_received {
                "good"@
            } else if dependency_at_risk(data.project.dependencies@[k].status) {
                "bad"@
            } else {
                Seq::empty()
            }) + "\">"@ + (if data.project.dependencies@[k].rc_received {
                "✓"@
            } else {
                dependency_symbol(data.project.dependencies@[k].status)
            }) + " "@ + date_text(data.project.dependencies@[k].rc_due.day as int) + "</td><td>"@
                + (if data.project.dependencies@[k].final_received {
                "✓"@
            } else {
                "○"@
            }) + " "@ + date_text(data.project.dependencies@[k].final_due.day as int)
                + "</td></tr>\n"@),
        ),
{
    let ds = data.project.dependencies@;
    let p = html_dependency_cells(ds[k]);
    lemma_html_dependencies_cells(ds, k);
    let before = HTML_HEADER@ + html_page1(data, nums) + "<div class=\"page-break\"></div>"@
        + html_status_header(data, nums.percent_elapsed@) + html_csci_lines(
        data.project.cscis@,
        nums.cscis@,
    ) + "</section>\n"@;
    let after = html_documents(data.project.documents@) + html_milestones(data.project.milestones@)
        + HTML_GLOSSARY@ + HTML_FOOTER@;
    lemma_contains_around(before, html_dependencies(ds), after, p);
    assert(before + html_dependencies(ds) + after =~= html_report(data, nums));
}

} // verus!

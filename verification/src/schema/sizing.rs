//! T-shirt sizing: story points of the sizes XS, S, M, L and XL.

use vstd::prelude::*;
use vstd::hash_map::StringHashMap;
use crate::text;

verus! {

/// A single T-shirt size definition.
#[derive(Debug, Clone)]
pub struct TShirtSize {
    /// Story points of this size.
    pub points: u32,
    /// What this size means.
    pub description: String,
}

/// T-shirt sizing definitions.
#[derive(Debug, Clone)]
pub struct Sizing {
    /// Extra small.
    pub xs: TShirtSize,
    /// Small.
    pub s: TShirtSize,
    /// Medium.
    pub m: TShirtSize,
    /// Large.
    pub l: TShirtSize,
    /// Extra large.
    pub xl: TShirtSize,
}

/// Default extra-small size: 1 point.
pub fn default_xs() -> (r: TShirtSize)
    ensures
        r.points == 1,
        r.description@ == "< 2 hours, trivial change"@,
{
    TShirtSize { points: 1, description: text::owned("< 2 hours, trivial change") }
}

/// Default small size: 2 points.
pub fn default_s() -> (r: TShirtSize)
    ensures
        r.points == 2,
        r.description@ == "Half day, well-understood"@,
{
    TShirtSize { points: 2, description: text::owned("Half day, well-understood") }
}

/// Default medium size: 5 points.
pub fn default_m() -> (r: TShirtSize)
    ensures
        r.points == 5,
        r.description@ == "1-2 days, some complexity"@,
{
    TShirtSize { points: 5, description: text::owned("1-2 days, some complexity") }
}

/// Default large size: 8 points.
pub fn default_l() -> (r: TShirtSize)
    ensures
        r.points == 8,
        r.description@ == "3-5 days, significant work"@,
{
    TShirtSize { points: 8, description: text::owned("3-5 days, significant work") }
}

/// Default extra-large size: 13 points.
pub fn default_xl() -> (r: TShirtSize)
    ensures
        r.points == 13,
        r.description@ == "Week+, should probably be split"@,
{
    TShirtSize { points: 13, description: text::owned("Week+, should probably be split") }
}

/// The default sizing: XS=1, S=2, M=5, L=8, XL=13 points.
pub open spec fn is_default_sizing(s: Sizing) -> bool {
    &&& s.xs.points == 1 && s.xs.description@ == "< 2 hours, trivial change"@
    &&& s.s.points == 2 && s.s.description@ == "Half day, well-understood"@
    &&& s.m.points == 5 && s.m.description@ == "1-2 days, some complexity"@
    &&& s.l.points == 8 && s.l.description@ == "3-5 days, significant work"@
    &&& s.xl.points == 13 && s.xl.description@ == "Week+, should probably be split"@
}

impl Default for Sizing {
    fn default() -> (r: Self)
        ensures
            is_default_sizing(r),
    {
        Sizing { xs: default_xs(), s: default_s(), m: default_m(), l: default_l(), xl: default_xl() }
    }
}

/// Points of the size named by an upper-cased label.
pub open spec fn points_for_upper(s: Sizing, u: Seq<char>) -> Option<u32> {
    if u == seq!['X', 'S'] {
        Some(s.xs.points)
    } else if u == seq!['S'] {
        Some(s.s.points)
    } else if u == seq!['M'] {
        Some(s.m.points)
    } else if u == seq!['L'] {
        Some(s.l.points)
    } else if u == seq!['X', 'L'] {
        Some(s.xl.points)
    } else {
        None
    }
}

/// Points of the size a label names, ignoring case.
pub open spec fn points_for_spec(s: Sizing, label: Seq<char>) -> Option<u32> {
    points_for_upper(s, text::upper_text(label))
}

/// One entry of the sizing table: `LABEL=Npt (description)`.
pub open spec fn table_entry(label: Seq<char>, size: TShirtSize) -> Seq<char> {
    label + seq!['='] + text::decimal(size.points as nat) + "pt ("@ + size.description@ + seq![')']
}

/// The sizing table: the five entries from XS to XL joined by ` | `.
pub open spec fn format_table_spec(s: Sizing) -> Seq<char> {
    let sep = " | "@;
    table_entry(seq!['X', 'S'], s.xs) + sep + table_entry(seq!['S'], s.s) + sep + table_entry(
        seq!['M'],
        s.m,
    ) + sep + table_entry(seq!['L'], s.l) + sep + table_entry(seq!['X', 'L'], s.xl)
}

impl Sizing {
    /// Points for a size label (XS, S, M, L, XL), ignoring case.
    pub fn points_for(&self, label: &str) -> (r: Option<u32>)
        ensures
            r == points_for_spec(*self, label@),
            text::all_ascii(label@) ==> r == points_for_upper(*self, text::ascii_upper(label@)),
    {
        let upper = text::to_uppercase(label);
        self.points_for_size(upper.as_str())
    }

    /// Points for an upper-cased size name: XS, S, M, L or XL.
    pub fn points_for_size(&self, upper: &str) -> (r: Option<u32>)
        ensures
            r == points_for_upper(*self, upper@),
    {
        proof {
            reveal_strlit("XS");
            reveal_strlit("S");
            reveal_strlit("M");
            reveal_strlit("L");
            reveal_strlit("XL");
            assert("XS"@ =~= seq!['X', 'S']);
            assert("S"@ =~= seq!['S']);
            assert("M"@ =~= seq!['M']);
            assert("L"@ =~= seq!['L']);
            assert("XL"@ =~= seq!['X', 'L']);
        }
        if text::str_eq(upper, "XS") {
            Some(self.xs.points)
        } else if text::str_eq(upper, "S") {
            Some(self.s.points)
        } else if text::str_eq(upper, "M") {
            Some(self.m.points)
        } else if text::str_eq(upper, "L") {
            Some(self.l.points)
        } else if text::str_eq(upper, "XL") {
            Some(self.xl.points)
        } else {
            None
        }
    }

    /// All sizes keyed by their labels.
    pub fn as_map(&self) -> (r: StringHashMap<&TShirtSize>)
        ensures
            r@ == map![
                seq!['X', 'S'] => &self.xs,
                seq!['S'] => &self.s,
                seq!['M'] => &self.m,
                seq!['L'] => &self.l,
                seq!['X', 'L'] => &self.xl,
            ],
    {
        let mut map: StringHashMap<&TShirtSize> = StringHashMap::new();
        map.insert(text::owned("XS"), &self.xs);
        map.insert(text::owned("S"), &self.s);
        map.insert(text::owned("M"), &self.m);
        map.insert(text::owned("L"), &self.l);
        map.insert(text::owned("XL"), &self.xl);
        proof {
            reveal_strlit("XS");
            reveal_strlit("S");
            reveal_strlit("M");
            reveal_strlit("L");
            reveal_strlit("XL");
            assert("XS"@ =~= seq!['X', 'S']);
            assert("S"@ =~= seq!['S']);
            assert("M"@ =~= seq!['M']);
            assert("L"@ =~= seq!['L']);
            assert("XL"@ =~= seq!['X', 'L']);
        }
        assert(map@ =~= map![
            seq!['X', 'S'] => &self.xs,
            seq!['S'] => &self.s,
            seq!['M'] => &self.m,
            seq!['L'] => &self.l,
            seq!['X', 'L'] => &self.xl,
        ]);
        map
    }

    /// Sizes in order from smallest to largest, with their labels.
    pub fn ordered(&self) -> (r: Vec<(&str, &TShirtSize)>)
        ensures
            r.len() == 5,
            r@[0].0@ == seq!['X', 'S'] && *r@[0].1 == self.xs,
            r@[1].0@ == seq!['S'] && *r@[1].1 == self.s,
            r@[2].0@ == seq!['M'] && *r@[2].1 == self.m,
            r@[3].0@ == seq!['L'] && *r@[3].1 == self.l,
            r@[4].0@ == seq!['X', 'L'] && *r@[4].1 == self.xl,
    {
        proof {
            reveal_strlit("XS");
            reveal_strlit("S");
            reveal_strlit("M");
            reveal_strlit("L");
            reveal_strlit("XL");
        }
        let mut v: Vec<(&str, &TShirtSize)> = Vec::new();
        v.push(("XS", &self.xs));
        v.push(("S", &self.s));
        v.push(("M", &self.m));
        v.push(("L", &self.l));
        v.push(("XL", &self.xl));
        v
    }

    /// The sizing table for reports: `XS=1pt (..) | S=2pt (..) | ...`.
    pub fn format_table(&self) -> (r: String)
        ensures
            r@ == format_table_spec(*self),
    {
        let sizes = self.ordered();
        let mut out = String::new();
        let mut i: usize = 0;
        while i < sizes.len()
            invariant
                sizes.len() == 5,
                sizes@[0].0@ == seq!['X', 'S'] && *sizes@[0].1 == self.xs,
                sizes@[1].0@ == seq!['S'] && *sizes@[1].1 == self.s,
                sizes@[2].0@ == seq!['M'] && *sizes@[2].1 == self.m,
                sizes@[3].0@ == seq!['L'] && *sizes@[3].1 == self.l,
                sizes@[4].0@ == seq!['X', 'L'] && *sizes@[4].1 == self.xl,
                i <= 5,
                out@ == table_prefix(*self, i as int),
            decreases 5 - i,
        {
            if i > 0 {
                text::push_str(&mut out, " | ");
            }
            let (label, size) = sizes[i];
            text::push_str(&mut out, label);
            text::push_char(&mut out, '=');
            text::push_decimal(&mut out, size.points as u64);
            text::push_str(&mut out, "pt (");
            text::push_str(&mut out, size.description.as_str());
            text::push_char(&mut out, ')');
            proof {
                assert(out@ =~= table_prefix(*self, i + 1));
            }
            i = i + 1;
        }
        proof {
            reveal_with_fuel(table_prefix, 6);
            assert(table_prefix(*self, 5) =~= format_table_spec(*self));
        }
        out
    }
}

/// The first `k` entries of the sizing table, joined by ` | `.
pub open spec fn table_prefix(s: Sizing, k: int) -> Seq<char>
    decreases k,
{
    if k <= 0 {
        Seq::empty()
    } else {
        let e = if k == 1 {
            table_entry(seq!['X', 'S'], s.xs)
        } else if k == 2 {
            table_entry(seq!['S'], s.s)
        } else if k == 3 {
            table_entry(seq!['M'], s.m)
        } else if k == 4 {
            table_entry(seq!['L'], s.l)
        } else {
            table_entry(seq!['X', 'L'], s.xl)
        };
        if k == 1 {
            e
        } else {
            table_prefix(s, k - 1) + " | "@ + e
        }
    }
}

/// For ASCII labels the points ignore case: a label and its lower-case form
/// give the same points (by `points_for`'s contract, both are the points of
/// the same upper-cased name).
pub proof fn lemma_points_ignore_ascii_case(s: Sizing, label: Seq<char>)
    requires
        text::all_ascii(label),
    ensures
        text::all_ascii(text::ascii_lower(label)),
        points_for_upper(s, text::ascii_upper(text::ascii_lower(label))) == points_for_upper(
            s,
            text::ascii_upper(label),
        ),
{
    text::lemma_ascii_case(label);
}

} // verus!

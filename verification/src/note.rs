//! Notes and filename assembly.
//!
//! A note is built once from user-supplied text (or from a computed
//! week-start timestamp for the journal), formatted to a single filename,
//! and discarded.  The assembled filename joins the independently normalized
//! fragments with the fixed separators `==`, `--` and `__`, and appends the
//! extension after a dot.

use vstd::prelude::*;
use vstd::string::StringExecFns;
use chrono::{Datelike, Timelike};
use crate::slug::{spec_sluggify_and_apply_rules, sluggify_and_apply_rules, Component};
use crate::text::chars_to_string;

verus! {

/// The decimal digit character for `d`.
pub open spec fn digit_char(d: int) -> char {
    (48 + d) as char
}

/// The decimal digits of `n`, most significant first, no padding.
pub open spec fn spec_dec(n: nat) -> Seq<char>
    decreases n,
{
    if n < 10 {
        seq![digit_char(n as int)]
    } else {
        spec_dec(n / 10).push(digit_char((n % 10) as int))
    }
}

/// The decimal digits of `n`, zero-padded to at least two places.
pub open spec fn spec_pad2(n: nat) -> Seq<char> {
    if n < 10 {
        seq!['0'] + spec_dec(n)
    } else {
        spec_dec(n)
    }
}

/// The decimal digits of `n`, zero-padded to at least four places.
pub open spec fn spec_pad4(n: nat) -> Seq<char> {
    if n < 10 {
        seq!['0', '0', '0'] + spec_dec(n)
    } else if n < 100 {
        seq!['0', '0'] + spec_dec(n)
    } else if n < 1000 {
        seq!['0'] + spec_dec(n)
    } else {
        spec_dec(n)
    }
}

/// A calendar year as the timestamp grammar writes it: four zero-padded
/// digits, with an explicit sign outside 0..=9999.
pub open spec fn spec_year(y: int) -> Seq<char> {
    if 0 <= y <= 9999 {
        spec_pad4(y as nat)
    } else if y > 9999 {
        seq!['+'] + spec_dec(y as nat)
    } else {
        seq!['-'] + spec_pad4((-y) as nat)
    }
}

/// A signed number as plain decimal digits with a `-` sign when negative.
pub open spec fn spec_signed_dec(y: int) -> Seq<char> {
    if y < 0 {
        seq!['-'] + spec_dec((-y) as nat)
    } else {
        spec_dec(y as nat)
    }
}

/// The timestamp identifier `YYYYMMDDTHHMMSS` for the given parts.
pub open spec fn spec_format_identifier(
    y: int,
    mo: int,
    d: int,
    h: int,
    mi: int,
    s: int,
) -> Seq<char> {
    spec_year(y) + spec_pad2(mo as nat) + spec_pad2(d as nat) + seq!['T'] + spec_pad2(h as nat)
        + spec_pad2(mi as nat) + spec_pad2(s as nat)
}

/// The synthesized journal title `Week {week} of {year}`.
pub open spec fn spec_week_title(week: nat, year: int) -> Seq<char> {
    seq!['W', 'e', 'e', 'k', ' '] + spec_dec(week) + seq![' ', 'o', 'f', ' '] + spec_signed_dec(
        year,
    )
}

/// Appends the decimal digits of `n`.
pub(crate) fn push_dec(out: &mut Vec<char>, n: u32)
    ensures
        final(out)@ == old(out)@ + spec_dec(n as nat),
    decreases n,
{
    if n < 10 {
        out.push((48 + n as u8) as char);
        proof {
            assert(old(out)@ + spec_dec(n as nat) =~= out@);
        }
    } else {
        proof {
            assert(n / 10 < n) by (nonlinear_arith)
                requires
                    n >= 10,
            ;
        }
        push_dec(out, n / 10);
        out.push((48 + (n % 10) as u8) as char);
        proof {
            assert(old(out)@ + spec_dec(n as nat) =~= out@);
        }
    }
}

/// Appends the decimal digits of `n`, zero-padded to at least two places.
fn push_pad2(out: &mut Vec<char>, n: u32)
    ensures
        final(out)@ == old(out)@ + spec_pad2(n as nat),
{
    if n < 10 {
        out.push('0');
    }
    push_dec(out, n);
    proof {
        assert(old(out)@ + spec_pad2(n as nat) =~= out@);
    }
}

/// Appends the decimal digits of `n`, zero-padded to at least four places.
fn push_pad4(out: &mut Vec<char>, n: u32)
    ensures
        final(out)@ == old(out)@ + spec_pad4(n as nat),
{
    if n < 10 {
        out.push('0');
        out.push('0');
        out.push('0');
    } else if n < 100 {
        out.push('0');
        out.push('0');
    } else if n < 1000 {
        out.push('0');
    }
    push_dec(out, n);
    proof {
        assert(old(out)@ + spec_pad4(n as nat) =~= out@);
    }
}

/// Appends a year in the timestamp grammar.
fn push_year(out: &mut Vec<char>, y: i32)
    requires
        -1000000 <= y <= 1000000,
    ensures
        final(out)@ == old(out)@ + spec_year(y as int),
{
    if 0 <= y && y <= 9999 {
        push_pad4(out, y as u32);
    } else if y > 9999 {
        out.push('+');
        push_dec(out, y as u32);
        proof {
            assert(old(out)@ + spec_year(y as int) =~= out@);
        }
    } else {
        out.push('-');
        push_pad4(out, (-y) as u32);
        proof {
            assert(old(out)@ + spec_year(y as int) =~= out@);
        }
    }
}

/// Formats the timestamp identifier `YYYYMMDDTHHMMSS`.
pub fn format_identifier(y: i32, mo: u8, d: u8, h: u8, mi: u8, s: u8) -> (r: String)
    requires
        -1000000 <= y <= 1000000,
    ensures
        r@ == spec_format_identifier(y as int, mo as int, d as int, h as int, mi as int, s as int),
{
    let mut out: Vec<char> = Vec::new();
    push_year(&mut out, y);
    push_pad2(&mut out, mo as u32);
    push_pad2(&mut out, d as u32);
    out.push('T');
    push_pad2(&mut out, h as u32);
    push_pad2(&mut out, mi as u32);
    push_pad2(&mut out, s as u32);
    proof {
        assert(out@ =~= spec_format_identifier(
            y as int,
            mo as int,
            d as int,
            h as int,
            mi as int,
            s as int,
        ));
    }
    chars_to_string(&out)
}

/// Formats the journal title `Week {week} of {year}`.
pub fn week_title(week: u32, year: i32) -> (r: String)
    requires
        -1000000 <= year <= 1000000,
    ensures
        r@ == spec_week_title(week as nat, year as int),
{
    let mut out: Vec<char> = Vec::new();
    out.push('W');
    out.push('e');
    out.push('e');
    out.push('k');
    out.push(' ');
    push_dec(&mut out, week);
    out.push(' ');
    out.push('o');
    out.push('f');
    out.push(' ');
    if year < 0 {
        out.push('-');
        push_dec(&mut out, (-year) as u32);
    } else {
        push_dec(&mut out, year as u32);
    }
    proof {
        assert(out@ =~= spec_week_title(week as nat, year as int));
    }
    chars_to_string(&out)
}

/// The view of an optional signature.
pub open spec fn opt_view(o: Option<String>) -> Option<Seq<char>> {
    match o {
        Some(s) => Some(s@),
        None => None,
    }
}

/// The normalized keywords joined with single underscores, in input order.
pub open spec fn spec_join_keywords(ks: Seq<Seq<char>>) -> Seq<char>
    decreases ks.len(),
{
    if ks.len() == 0 {
        Seq::empty()
    } else if ks.len() == 1 {
        spec_sluggify_and_apply_rules(ks[0], Component::Keyword)
    } else {
        spec_join_keywords(ks.drop_last()) + seq!['_'] + spec_sluggify_and_apply_rules(
            ks.last(),
            Component::Keyword,
        )
    }
}

/// The assembled filename: normalized identifier, then `==` and the
/// normalized signature if one is present, then `--` and the normalized
/// title, then `__` and the normalized keywords joined with `_` if any were
/// given, then a dot and the extension verbatim.
pub open spec fn spec_format_file_name(
    identifier: Seq<char>,
    title: Seq<char>,
    signature: Option<Seq<char>>,
    keywords: Seq<Seq<char>>,
    extension: Seq<char>,
) -> Seq<char> {
    spec_sluggify_and_apply_rules(identifier, Component::Identifier) + (match signature {
        Some(s) => seq!['=', '='] + spec_sluggify_and_apply_rules(s, Component::Signature),
        None => Seq::empty(),
    }) + seq!['-', '-'] + spec_sluggify_and_apply_rules(title, Component::Title) + (if keywords.len()
        > 0 {
        seq!['_', '_'] + spec_join_keywords(keywords)
    } else {
        Seq::empty()
    }) + seq!['.'] + extension
}

/// One note, built per invocation and immediately formatted.
#[derive(Debug)]
pub struct Note {
    pub identifier: String,
    pub title: String,
    pub signature: Option<String>,
    pub keywords: Vec<String>,
    pub extension: String,
}

impl Note {
    /// Builds a note from its five fields.
    pub fn new(
        identifier: String,
        title: String,
        signature: Option<String>,
        keywords: Vec<String>,
        extension: String,
    ) -> (n: Note)
        ensures
            n.identifier == identifier,
            n.title == title,
            n.signature == signature,
            n.keywords == keywords,
            n.extension == extension,
    {
        Note { identifier, title, signature, keywords, extension }
    }

    /// Builds a note whose identifier is the current local time formatted as
    /// `YYYYMMDDTHHMMSS`.
    pub fn new_now(
        title: String,
        signature: Option<String>,
        keywords: Vec<String>,
        extension: String,
    ) -> (n: Note)
        ensures
            n.title == title,
            n.signature == signature,
            n.keywords == keywords,
            n.extension == extension,
            exists|p: (i32, u8, u8, u8, u8, u8)|
                {
                    &&& 1 <= p.1 <= 12
                    &&& 1 <= p.2 <= 31
                    &&& p.3 < 24
                    &&& p.4 < 60
                    &&& p.5 < 60
                    &&& n.identifier@ == spec_format_identifier(
                        p.0 as int,
                        p.1 as int,
                        p.2 as int,
                        p.3 as int,
                        p.4 as int,
                        p.5 as int,
                    )
                },
    {
        let (y, mo, d, h, mi, s) = local_now_parts();
        let identifier = format_identifier(y, mo, d, h, mi, s);
        proof {
            assert(identifier@ == spec_format_identifier(
                y as int,
                mo as int,
                d as int,
                h as int,
                mi as int,
                s as int,
            ));
        }
        Note { identifier, title, signature, keywords, extension }
    }

    /// Assembles the filename from the note's normalized fragments.
    pub fn format_file_name(&self) -> (r: String)
        ensures
            r@ == spec_format_file_name(
                self.identifier@,
                self.title@,
                opt_view(self.signature),
                self.keywords.deep_view(),
                self.extension@,
            ),
    {
        let mut fname = sluggify_and_apply_rules(self.identifier.as_str(), Component::Identifier);
        match &self.signature {
            Some(sig) => {
                let slug_sig = sluggify_and_apply_rules(sig.as_str(), Component::Signature);
                fname.append("==");
                fname.append(slug_sig.as_str());
                proof {
                    reveal_strlit("==");
                    assert("=="@ =~= seq!['=', '=']);
                }
            },
            None => {},
        }
        let slug_title = sluggify_and_apply_rules(self.title.as_str(), Component::Title);
        fname.append("--");
        fname.append(slug_title.as_str());
        proof {
            reveal_strlit("--");
            assert("--"@ =~= seq!['-', '-']);
        }
        let k = self.keywords.len();
        if k > 0 {
            fname.append("__");
            proof {
                reveal_strlit("__");
                assert("__"@ =~= seq!['_', '_']);
            }
            let mut joined = sluggify_and_apply_rules(self.keywords[0].as_str(), Component::Keyword);
            let mut i: usize = 1;
            proof {
                assert(self.keywords.deep_view().take(1)[0] == self.keywords[0]@);
                assert(joined@ =~= spec_join_keywords(self.keywords.deep_view().take(1)));
            }
            while i < k
                invariant
                    1 <= i <= k,
                    k == self.keywords.len(),
                    joined@ == spec_join_keywords(self.keywords.deep_view().take(i as int)),
                decreases k - i,
            {
                joined.append("_");
                let slug_kw = sluggify_and_apply_rules(self.keywords[i].as_str(), Component::Keyword);
                joined.append(slug_kw.as_str());
                i += 1;
                proof {
                    reveal_strlit("_");
                    assert("_"@ =~= seq!['_']);
                    assert(self.keywords.deep_view().take(i as int).drop_last()
                        =~= self.keywords.deep_view().take(i as int - 1));
                    assert(self.keywords.deep_view().take(i as int).last() == self.keywords[i as int
                        - 1]@);
                    assert(joined@ =~= spec_join_keywords(self.keywords.deep_view().take(i as int)));
                }
            }
            proof {
                assert(self.keywords.deep_view().take(k as int) =~= self.keywords.deep_view());
            }
            fname.append(joined.as_str());
        }
        fname.append(".");
        fname.append(self.extension.as_str());
        proof {
            reveal_strlit(".");
            assert("."@ =~= seq!['.']);
            assert(fname@ =~= spec_format_file_name(
                self.identifier@,
                self.title@,
                opt_view(self.signature),
                self.keywords.deep_view(),
                self.extension@,
            ));
        }
        fname
    }
}

/// Builds the journal note for the given week anchor: the identifier is the
/// Monday of the week at midnight, the title is `Week {week} of {year}`, and
/// the single keyword is `journal`.
pub fn journal_note(year: i32, month: u8, day: u8, week: u32, iso_year: i32) -> (n: Note)
    requires
        -1000000 <= year <= 1000000,
        -1000000 <= iso_year <= 1000000,
    ensures
        n.identifier@ == spec_format_identifier(year as int, month as int, day as int, 0, 0, 0),
        n.title@ == spec_week_title(week as nat, iso_year as int),
        n.signature is None,
        n.keywords.deep_view() =~= seq!["journal"@],
        n.extension@ == "md"@,
{
    let identifier = format_identifier(year, month, day, 0, 0, 0);
    let title = week_title(week, iso_year);
    let mut keywords: Vec<String> = Vec::new();
    keywords.push(String::from_str("journal"));
    proof {
        assert(keywords.deep_view() =~= seq!["journal"@]);
    }
    Note::new(identifier, title, None, keywords, String::from_str("md"))
}

/// Relies on `chrono::Local::now` and the `Datelike`/`Timelike` accessors of
/// `chrono::NaiveDateTime`: the month is 1..=12, the day 1..=31, the hour
/// below 24, the minute below 60, the second below 60, and chrono years lie
/// well within a million either way.
#[verifier::external_body]
fn local_now_parts() -> (r: (i32, u8, u8, u8, u8, u8))
    ensures
        -1000000 <= r.0 <= 1000000,
        1 <= r.1 <= 12,
        1 <= r.2 <= 31,
        r.3 < 24,
        r.4 < 60,
        r.5 < 60,
{
    let t = chrono::Local::now().naive_local();
    (
        t.year(),
        t.month() as u8,
        t.day() as u8,
        t.hour() as u8,
        t.minute() as u8,
        t.second() as u8,
    )
}

/// Relies on `chrono::Local::now`, `NaiveDate::week` with a Monday week
/// start, and `Datelike::iso_week`: the returned first day is a valid
/// calendar date, the ISO week number is 1..=53, and chrono years lie well
/// within a million either way.
#[verifier::external_body]
fn local_week_anchor() -> (r: (i32, u8, u8, u32, i32))
    ensures
        -1000000 <= r.0 <= 1000000,
        1 <= r.1 <= 12,
        1 <= r.2 <= 31,
        1 <= r.3 <= 53,
        -1000000 <= r.4 <= 1000000,
{
    let now = chrono::Local::now();
    let monday = now.date_naive().week(chrono::Weekday::Mon).first_day();
    let iso = now.iso_week();
    (monday.year(), monday.month() as u8, monday.day() as u8, iso.week(), iso.year())
}

/// Builds the journal note for the current local ISO week.
pub fn journal_note_now() -> (n: Note)
    ensures
        n.signature is None,
        n.extension@ == "md"@,
        n.keywords.deep_view() =~= seq!["journal"@],
        exists|p: (i32, u8, u8, u32, i32)|
            {
                &&& 1 <= p.1 <= 12
                &&& 1 <= p.2 <= 31
                &&& 1 <= p.3 <= 53
                &&& n.identifier@ == spec_format_identifier(
                    p.0 as int,
                    p.1 as int,
                    p.2 as int,
                    0,
                    0,
                    0,
                )
                &&& n.title@ == spec_week_title(p.3 as nat, p.4 as int)
            },
{
    let (year, month, day, week, iso_year) = local_week_anchor();
    let n = journal_note(year, month, day, week, iso_year);
    proof {
        let p = (year, month, day, week, iso_year);
        assert(1 <= p.1 <= 12 && 1 <= p.2 <= 31 && 1 <= p.3 <= 53 && n.identifier@
            == spec_format_identifier(p.0 as int, p.1 as int, p.2 as int, 0, 0, 0) && n.title@
            == spec_week_title(p.3 as nat, p.4 as int));
    }
    n
}

} // verus!

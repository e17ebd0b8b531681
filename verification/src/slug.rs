//! The slug pipeline: per-component normalization of filename fragments.
//!
//! Each fragment of a note filename (identifier, signature, title, keyword)
//! runs left to right through the same five stages: the fixed set of illegal
//! characters is stripped, a component-specific separator substitution is
//! applied, literal dots are removed, runs of repeated token characters are
//! collapsed to one, and trailing token characters are trimmed.  The spec
//! functions in this module state each stage over `Seq<char>`, and every
//! executable function is proved to implement its stage exactly.

use vstd::prelude::*;
use crate::text::{
    chars_to_string, collapse_runs, illegal_char, is_illegal_char, is_token_char, keep_chars,
    no_adjacent, seq_all, str_to_chars, trim_end,
};

verus! {

/// The component type a fragment is normalized as.
#[derive(PartialEq, Eq, Structural, Debug, Clone, Copy)]
pub enum Component {
    Title,
    Keyword,
    Identifier,
    Signature,
}

/// Keeps the characters outside the fixed illegal set.
pub open spec fn not_illegal() -> spec_fn(char) -> bool {
    |c: char| !is_illegal_char(c)
}

/// Keeps the characters other than `x`.
pub open spec fn not_char(x: char) -> spec_fn(char) -> bool {
    |c: char| c != x
}

/// Keeps the characters that are not keyword separators.
pub open spec fn not_kw_separator() -> spec_fn(char) -> bool {
    |c: char| !(c == ' ' || c == '-' || c == '=' || c == '_')
}

/// Exactly the character `x`.
pub open spec fn only_char(x: char) -> spec_fn(char) -> bool {
    |c: char| c == x
}

/// The token characters whose runs are collapsed for a Title fragment:
/// hyphens are left alone there, since a title keeps its hyphens as placed
/// by the hyphenation stage.
pub open spec fn title_collapse_set() -> spec_fn(char) -> bool {
    |c: char| c == '_' || c == '=' || c == '@'
}

/// The token characters whose runs are collapsed for every other component.
pub open spec fn full_collapse_set() -> spec_fn(char) -> bool {
    |c: char| is_token_char(c)
}

/// The token characters trimmed from the end of a Title fragment.
pub open spec fn title_trim_set() -> spec_fn(char) -> bool {
    |c: char| c == '=' || c == '@' || c == '_'
}

/// The token characters trimmed from the end of every other component.
pub open spec fn full_trim_set() -> spec_fn(char) -> bool {
    |c: char| c == '=' || c == '@' || c == '_' || c == '-'
}

/// Which runs are collapsed for a given component.
pub open spec fn collapse_set_for(component: Component) -> spec_fn(char) -> bool {
    if component is Title {
        title_collapse_set()
    } else {
        full_collapse_set()
    }
}

/// Which trailing characters are trimmed for a given component.
pub open spec fn trim_set_for(component: Component) -> spec_fn(char) -> bool {
    if component is Title {
        title_trim_set()
    } else {
        full_trim_set()
    }
}

/// `s` without the characters of the fixed illegal set.
pub open spec fn remove_illegal(s: Seq<char>) -> Seq<char> {
    keep_chars(s, not_illegal())
}

/// `s` without every occurrence of `x`.
pub open spec fn remove_char(s: Seq<char>, x: char) -> Seq<char> {
    keep_chars(s, not_char(x))
}

/// `s` without spaces, hyphens, equals signs and underscores.
pub open spec fn remove_kw_separators(s: Seq<char>) -> Seq<char> {
    keep_chars(s, not_kw_separator())
}

/// Spaces and underscores replaced by the separator `t`.
pub open spec fn subst_char(c: char, t: char) -> char {
    if c == ' ' || c == '_' {
        t
    } else {
        c
    }
}

/// `s` with every space and underscore replaced by `t`.
pub open spec fn subst_separators(s: Seq<char>, t: char) -> Seq<char> {
    s.map_values(|c: char| subst_char(c, t))
}

/// ASCII lowercasing of a single character; everything outside `A`..`Z` is
/// left unchanged.
pub open spec fn lower_char(c: char) -> char {
    if 'A' <= c && c <= 'Z' {
        ((c as u32 + 32) as char)
    } else {
        c
    }
}

/// `s` lowercased character by character.
pub open spec fn to_lower(s: Seq<char>) -> Seq<char> {
    s.map_values(|c: char| lower_char(c))
}

/// `s` without one leading `x`, if present.
pub open spec fn strip_leading(s: Seq<char>, x: char) -> Seq<char> {
    if s.len() > 0 && s[0] == x {
        s.drop_first()
    } else {
        s
    }
}

/// `s` without one trailing `x`, if present.
pub open spec fn strip_trailing(s: Seq<char>, x: char) -> Seq<char> {
    if s.len() > 0 && s.last() == x {
        s.drop_last()
    } else {
        s
    }
}

/// Hyphenation: spaces and underscores become hyphens, runs of hyphens
/// collapse to one, and one leading and one trailing hyphen are removed.
pub open spec fn spec_hyphenate(s: Seq<char>) -> Seq<char> {
    strip_trailing(strip_leading(collapse_runs(subst_separators(s, '-'), only_char('-')), '-'), '-')
}

/// Equals-signing: spaces and underscores become equals signs, runs of
/// equals signs collapse to one, and one leading hyphen and one trailing
/// equals sign are removed (asymmetric by design).
pub open spec fn spec_put_equals(s: Seq<char>) -> Seq<char> {
    strip_trailing(strip_leading(collapse_runs(subst_separators(s, '='), only_char('=')), '-'), '=')
}

/// Title normalization: illegal characters and equals signs are removed,
/// the rest is hyphenated and lowercased.
pub open spec fn spec_sluggify_title(s: Seq<char>) -> Seq<char> {
    to_lower(spec_hyphenate(remove_char(remove_illegal(s), '=')))
}

/// Signature normalization: illegal characters and hyphens are removed, the
/// rest gets equals signs as separators and is lowercased.
pub open spec fn spec_sluggify_signature(s: Seq<char>) -> Seq<char> {
    to_lower(spec_put_equals(remove_char(remove_illegal(s), '-')))
}

/// Keyword normalization: illegal characters and all separators are removed
/// and the rest is lowercased.
pub open spec fn spec_sluggify_keyword(s: Seq<char>) -> Seq<char> {
    to_lower(remove_kw_separators(remove_illegal(s)))
}

/// The literal `query-filenames:`.
pub open spec fn query_filenames_pat() -> Seq<char> {
    seq!['q', 'u', 'e', 'r', 'y', '-', 'f', 'i', 'l', 'e', 'n', 'a', 'm', 'e', 's', ':']
}

/// The literal `query-contents:`.
pub open spec fn query_contents_pat() -> Seq<char> {
    seq!['q', 'u', 'e', 'r', 'y', '-', 'c', 'o', 'n', 't', 'e', 'n', 't', 's', ':']
}

/// `s` with every non-overlapping occurrence of `pat` removed, scanning
/// left to right without rescanning what an earlier removal joined.
pub open spec fn remove_substr(s: Seq<char>, pat: Seq<char>) -> Seq<char>
    decreases s.len(),
{
    if pat.len() == 0 {
        s
    } else if s.len() < pat.len() {
        s
    } else if s.take(pat.len() as int) == pat {
        remove_substr(s.skip(pat.len() as int), pat)
    } else {
        seq![s[0]] + remove_substr(s.drop_first(), pat)
    }
}

/// `s` with every occurrence of `[` immediately followed by a run of `]`
/// removed, the run removed with it.
pub open spec fn remove_bracket_runs(s: Seq<char>) -> Seq<char>
    decreases s.len(), 0int,
{
    if s.len() >= 2 && s[0] == '[' && s[1] == ']' {
        skip_bracket_run(s.skip(2))
    } else if s.len() > 0 {
        seq![s[0]] + remove_bracket_runs(s.drop_first())
    } else {
        s
    }
}

/// Consumes the rest of a run of `]` being removed, then continues the scan.
pub open spec fn skip_bracket_run(s: Seq<char>) -> Seq<char>
    decreases s.len(), 1int,
{
    if s.len() > 0 && s[0] == ']' {
        skip_bracket_run(s.drop_first())
    } else {
        remove_bracket_runs(s)
    }
}

/// Identifier validation: the literal query prefixes are removed, then any
/// `[` immediately followed by `]` characters.
pub open spec fn spec_valid_identifier(s: Seq<char>) -> Seq<char> {
    remove_bracket_runs(
        remove_substr(remove_substr(s, query_filenames_pat()), query_contents_pat()),
    )
}

/// The component-specific stage of the pipeline, after illegal characters
/// were stripped.
pub open spec fn component_slug(s: Seq<char>, component: Component) -> Seq<char> {
    match component {
        Component::Title => spec_sluggify_title(s),
        Component::Keyword => spec_sluggify_keyword(s),
        Component::Identifier => spec_valid_identifier(remove_illegal(s)),
        Component::Signature => spec_sluggify_signature(s),
    }
}

/// The whole per-fragment pipeline: component-specific normalization, dot
/// removal, run collapsing and right trimming, in that order.
pub open spec fn spec_sluggify_and_apply_rules(s: Seq<char>, component: Component) -> Seq<char> {
    trim_end(
        collapse_runs(remove_char(component_slug(s, component), '.'), collapse_set_for(component)),
        trim_set_for(component),
    )
}

/// Removes the illegal characters from a character vector.
fn filter_illegal(v: &Vec<char>) -> (r: Vec<char>)
    ensures
        r@ == remove_illegal(v@),
{
    let n = v.len();
    let mut out: Vec<char> = Vec::new();
    let mut i: usize = 0;
    while i < n
        invariant
            i <= n,
            n == v@.len(),
            out@ == remove_illegal(v@.take(i as int)),
        decreases n - i,
    {
        let c = v[i];
        if !illegal_char(c) {
            out.push(c);
        }
        i += 1;
        proof {
            assert(v@.take(i as int).drop_last() =~= v@.take(i as int - 1));
            assert(v@.take(i as int).last() == v@[i as int - 1]);
        }
    }
    proof {
        assert(v@.take(n as int) =~= v@);
    }
    out
}

/// Removes every occurrence of `x` from a character vector.
fn filter_char(v: &Vec<char>, x: char) -> (r: Vec<char>)
    ensures
        r@ == remove_char(v@, x),
{
    let n = v.len();
    let mut out: Vec<char> = Vec::new();
    let mut i: usize = 0;
    while i < n
        invariant
            i <= n,
            n == v@.len(),
            out@ == remove_char(v@.take(i as int), x),
        decreases n - i,
    {
        let c = v[i];
        if c != x {
            out.push(c);
        }
        i += 1;
        proof {
            assert(v@.take(i as int).drop_last() =~= v@.take(i as int - 1));
            assert(v@.take(i as int).last() == v@[i as int - 1]);
        }
    }
    proof {
        assert(v@.take(n as int) =~= v@);
    }
    out
}

/// Removes spaces, hyphens, equals signs and underscores from a character
/// vector.
fn filter_kw_separators(v: &Vec<char>) -> (r: Vec<char>)
    ensures
        r@ == remove_kw_separators(v@),
{
    let n = v.len();
    let mut out: Vec<char> = Vec::new();
    let mut i: usize = 0;
    while i < n
        invariant
            i <= n,
            n == v@.len(),
            out@ == remove_kw_separators(v@.take(i as int)),
        decreases n - i,
    {
        let c = v[i];
        if !(c == ' ' || c == '-' || c == '=' || c == '_') {
            out.push(c);
        }
        i += 1;
        proof {
            assert(v@.take(i as int).drop_last() =~= v@.take(i as int - 1));
            assert(v@.take(i as int).last() == v@[i as int - 1]);
        }
    }
    proof {
        assert(v@.take(n as int) =~= v@);
    }
    out
}

/// Replaces spaces and underscores with `t` in a character vector.
fn subst_separators_vec(v: &Vec<char>, t: char) -> (r: Vec<char>)
    ensures
        r@ == subst_separators(v@, t),
{
    let n = v.len();
    let mut out: Vec<char> = Vec::new();
    let mut i: usize = 0;
    while i < n
        invariant
            i <= n,
            n == v@.len(),
            out@ == subst_separators(v@.take(i as int), t),
        decreases n - i,
    {
        let c = v[i];
        if c == ' ' || c == '_' {
            out.push(t);
        } else {
            out.push(c);
        }
        i += 1;
        proof {
            assert(out@ =~= subst_separators(v@.take(i as int), t));
        }
    }
    proof {
        assert(v@.take(n as int) =~= v@);
    }
    out
}

/// Lowercases one character, ASCII only.
fn lower_char_exec(c: char) -> (r: char)
    ensures
        r == lower_char(c),
{
    if 'A' <= c && c <= 'Z' {
        ((c as u8) + 32) as char
    } else {
        c
    }
}

/// Lowercases a character vector, ASCII only.
fn lower_vec(v: &Vec<char>) -> (r: Vec<char>)
    ensures
        r@ == to_lower(v@),
{
    let n = v.len();
    let mut out: Vec<char> = Vec::new();
    let mut i: usize = 0;
    while i < n
        invariant
            i <= n,
            n == v@.len(),
            out@ == to_lower(v@.take(i as int)),
        decreases n - i,
    {
        let c = lower_char_exec(v[i]);
        out.push(c);
        i += 1;
        proof {
            assert(out@ =~= to_lower(v@.take(i as int)));
        }
    }
    proof {
        assert(v@.take(n as int) =~= v@);
    }
    out
}

/// Collapses runs of the single character `x` to one occurrence.
fn collapse_char_vec(v: &Vec<char>, x: char) -> (r: Vec<char>)
    ensures
        r@ == collapse_runs(v@, only_char(x)),
{
    let n = v.len();
    let mut out: Vec<char> = Vec::new();
    let mut i: usize = 0;
    while i < n
        invariant
            i <= n,
            n == v@.len(),
            out@ == collapse_runs(v@.take(i as int), only_char(x)),
        decreases n - i,
    {
        let c = v[i];
        if !(i > 0 && c == x && v[i - 1] == c) {
            out.push(c);
        }
        i += 1;
        proof {
            assert(v@.take(i as int).drop_last() =~= v@.take(i as int - 1));
            assert(v@.take(i as int).last() == v@[i as int - 1]);
        }
    }
    proof {
        assert(v@.take(n as int) =~= v@);
    }
    out
}

/// Collapses runs of the component's token characters to one occurrence.
fn collapse_tokens_vec(v: &Vec<char>, title: bool) -> (r: Vec<char>)
    ensures
        title ==> r@ == collapse_runs(v@, title_collapse_set()),
        !title ==> r@ == collapse_runs(v@, full_collapse_set()),
{
    let n = v.len();
    let mut out: Vec<char> = Vec::new();
    let mut i: usize = 0;
    while i < n
        invariant
            i <= n,
            n == v@.len(),
            title ==> out@ == collapse_runs(v@.take(i as int), title_collapse_set()),
            !title ==> out@ == collapse_runs(v@.take(i as int), full_collapse_set()),
        decreases n - i,
    {
        let c = v[i];
        let in_set = if title {
            c == '_' || c == '=' || c == '@'
        } else {
            c == '-' || c == '_' || c == '=' || c == '@'
        };
        if !(i > 0 && in_set && v[i - 1] == c) {
            out.push(c);
        }
        i += 1;
        proof {
            assert(v@.take(i as int).drop_last() =~= v@.take(i as int - 1));
            assert(v@.take(i as int).last() == v@[i as int - 1]);
        }
    }
    proof {
        assert(v@.take(n as int) =~= v@);
    }
    out
}

/// Decides membership in the component's trailing trim set.
fn trim_char(c: char, title: bool) -> (b: bool)
    ensures
        title ==> b == title_trim_set()(c),
        !title ==> b == full_trim_set()(c),
{
    if title {
        c == '=' || c == '@' || c == '_'
    } else {
        c == '=' || c == '@' || c == '_' || c == '-'
    }
}

/// Trims the component's trailing token characters.
fn trim_tokens_vec(v: &Vec<char>, title: bool) -> (r: Vec<char>)
    ensures
        title ==> r@ == trim_end(v@, title_trim_set()),
        !title ==> r@ == trim_end(v@, full_trim_set()),
{
    let mut n = v.len();
    proof {
        assert(v@.take(n as int) =~= v@);
    }
    while n > 0 && trim_char(v[n - 1], title)
        invariant
            n <= v@.len(),
            title ==> trim_end(v@, title_trim_set()) == trim_end(v@.take(n as int), title_trim_set()),
            !title ==> trim_end(v@, full_trim_set()) == trim_end(v@.take(n as int), full_trim_set()),
        decreases n,
    {
        n -= 1;
        proof {
            assert(v@.take(n as int + 1).drop_last() =~= v@.take(n as int));
            assert(v@.take(n as int + 1).last() == v@[n as int]);
        }
    }
    let mut out: Vec<char> = Vec::new();
    let mut i: usize = 0;
    while i < n
        invariant
            i <= n,
            n <= v@.len(),
            out@ == v@.take(n as int).take(i as int),
        decreases n - i,
    {
        out.push(v[i]);
        i += 1;
        proof {
            assert(v@.take(n as int).take(i as int) =~= v@.take(n as int).take(i as int - 1).push(
                v@[i as int - 1],
            ));
        }
    }
    proof {
        assert(v@.take(n as int).take(n as int) =~= v@.take(n as int));
    }
    out
}

/// Removes one leading `lead` and one trailing `trail` from a character
/// vector.
fn strip_edges_vec(v: &Vec<char>, lead: char, trail: char) -> (r: Vec<char>)
    ensures
        r@ == strip_trailing(strip_leading(v@, lead), trail),
{
    let n = v.len();
    let start: usize = if n > 0 && v[0] == lead {
        1
    } else {
        0
    };
    let ghost mid = v@.subrange(start as int, n as int);
    proof {
        assert(strip_leading(v@, lead) =~= mid);
    }
    let end: usize = if n > start && v[n - 1] == trail {
        n - 1
    } else {
        n
    };
    proof {
        assert(strip_trailing(mid, trail) =~= v@.subrange(start as int, end as int));
    }
    let mut out: Vec<char> = Vec::new();
    let mut i: usize = start;
    while i < end
        invariant
            start <= i <= end <= v@.len(),
            out@ == v@.subrange(start as int, i as int),
        decreases end - i,
    {
        out.push(v[i]);
        i += 1;
        proof {
            assert(v@.subrange(start as int, i as int) =~= v@.subrange(start as int, i as int - 1)
                .push(v@[i as int - 1]));
        }
    }
    out
}

/// True when the characters of `pat` stand in `v` at position `i`.
fn window_matches(v: &Vec<char>, i: usize, pat: &Vec<char>) -> (b: bool)
    requires
        i + pat@.len() <= v@.len(),
    ensures
        b == (v@.subrange(i as int, i as int + pat@.len() as int) == pat@),
{
    let m = pat.len();
    let vn = v.len();
    let mut j: usize = 0;
    while j < m
        invariant
            j <= m,
            m == pat@.len(),
            vn == v@.len(),
            i + m <= vn,
            forall|k: int| 0 <= k < j ==> v@[i + k] == pat@[k],
        decreases m - j,
    {
        if v[i + j] != pat[j] {
            proof {
                assert(v@.subrange(i as int, i as int + m as int)[j as int] != pat@[j as int]);
            }
            return false;
        }
        j += 1;
    }
    proof {
        assert(v@.subrange(i as int, i as int + m as int) =~= pat@);
    }
    true
}

/// Removes every non-overlapping occurrence of `pat` from `v`, scanning left
/// to right.
fn remove_substr_vec(v: &Vec<char>, pat: &Vec<char>) -> (r: Vec<char>)
    requires
        pat@.len() > 0,
    ensures
        r@ == remove_substr(v@, pat@),
{
    let n = v.len();
    let m = pat.len();
    let mut out: Vec<char> = Vec::new();
    let mut i: usize = 0;
    proof {
        assert(v@.skip(0) =~= v@);
        assert(Seq::<char>::empty() + remove_substr(v@, pat@) =~= remove_substr(v@, pat@));
    }
    while m <= n && i <= n - m
        invariant
            i <= n,
            n == v@.len(),
            m == pat@.len(),
            m > 0,
            remove_substr(v@, pat@) == out@ + remove_substr(v@.skip(i as int), pat@),
        decreases n - i,
    {
        let ghost rest = v@.skip(i as int);
        proof {
            assert(rest.take(m as int) =~= v@.subrange(i as int, i as int + m as int));
        }
        if window_matches(v, i, pat) {
            i += m;
            proof {
                assert(rest.skip(m as int) =~= v@.skip(i as int));
            }
        } else {
            out.push(v[i]);
            i += 1;
            proof {
                assert(rest[0] == v@[i as int - 1]);
                assert(rest.drop_first() =~= v@.skip(i as int));
                assert(out@ + remove_substr(v@.skip(i as int), pat@) =~= out@.drop_last() + (seq![
                    rest[0],
                ] + remove_substr(rest.drop_first(), pat@)));
            }
        }
    }
    while i < n
        invariant
            i <= n,
            n == v@.len(),
            m == pat@.len(),
            m > 0,
            remove_substr(v@, pat@) == out@ + remove_substr(v@.skip(i as int), pat@),
            n - i < m,
        decreases n - i,
    {
        let ghost rest = v@.skip(i as int);
        proof {
            assert(rest.len() < m);
            assert(remove_substr(rest, pat@) == rest);
        }
        out.push(v[i]);
        i += 1;
        proof {
            assert(v@.skip(i as int - 1) =~= seq![v@[i as int - 1]] + v@.skip(i as int));
            assert(remove_substr(v@.skip(i as int), pat@) == v@.skip(i as int));
            assert(out@ + v@.skip(i as int) =~= out@.drop_last() + v@.skip(i as int - 1));
        }
    }
    proof {
        assert(v@.skip(n as int) =~= Seq::<char>::empty());
        assert(remove_substr(v@.skip(n as int), pat@) == v@.skip(n as int));
        assert(out@ + Seq::<char>::empty() =~= out@);
    }
    out
}

/// Removes every `[` immediately followed by a run of `]`, the run with it.
fn remove_brackets_vec(v: &Vec<char>) -> (r: Vec<char>)
    ensures
        r@ == remove_bracket_runs(v@),
{
    let n = v.len();
    let mut out: Vec<char> = Vec::new();
    let mut i: usize = 0;
    let mut in_run = false;
    proof {
        assert(v@.skip(0) =~= v@);
        assert(Seq::<char>::empty() + remove_bracket_runs(v@) =~= remove_bracket_runs(v@));
    }
    while i < n
        invariant
            i <= n,
            n == v@.len(),
            in_run ==> remove_bracket_runs(v@) == out@ + skip_bracket_run(v@.skip(i as int)),
            !in_run ==> remove_bracket_runs(v@) == out@ + remove_bracket_runs(v@.skip(i as int)),
        decreases n - i,
    {
        let ghost rest = v@.skip(i as int);
        proof {
            assert(rest[0] == v@[i as int]);
        }
        if in_run && v[i] == ']' {
            i += 1;
            proof {
                assert(rest.drop_first() =~= v@.skip(i as int));
            }
        } else {
            proof {
                if in_run {
                    assert(skip_bracket_run(rest) == remove_bracket_runs(rest));
                }
            }
            in_run = false;
            if v[i] == '[' && i + 1 < n && v[i + 1] == ']' {
                proof {
                    assert(rest.len() >= 2 && rest[1] == v@[i as int + 1]);
                }
                i += 2;
                in_run = true;
                proof {
                    assert(rest.skip(2) =~= v@.skip(i as int));
                }
            } else {
                proof {
                    if rest.len() >= 2 {
                        assert(rest[1] == v@[i as int + 1]);
                    }
                    assert(remove_bracket_runs(rest) == seq![rest[0]] + remove_bracket_runs(
                        rest.drop_first(),
                    ));
                }
                out.push(v[i]);
                i += 1;
                proof {
                    assert(rest.drop_first() =~= v@.skip(i as int));
                    assert(out@ + remove_bracket_runs(v@.skip(i as int)) =~= out@.drop_last() + (
                    seq![rest[0]] + remove_bracket_runs(rest.drop_first())));
                }
            }
        }
    }
    proof {
        assert(v@.skip(n as int) =~= Seq::<char>::empty());
        if in_run {
            assert(skip_bracket_run(v@.skip(n as int)) == remove_bracket_runs(v@.skip(n as int)));
        }
        assert(remove_bracket_runs(v@.skip(n as int)) == v@.skip(n as int));
        assert(out@ + Seq::<char>::empty() =~= out@);
    }
    out
}

/// The characters of `query-filenames:`.
fn query_filenames_vec() -> (r: Vec<char>)
    ensures
        r@ == query_filenames_pat(),
{
    let mut v: Vec<char> = Vec::new();
    v.push('q');
    v.push('u');
    v.push('e');
    v.push('r');
    v.push('y');
    v.push('-');
    v.push('f');
    v.push('i');
    v.push('l');
    v.push('e');
    v.push('n');
    v.push('a');
    v.push('m');
    v.push('e');
    v.push('s');
    v.push(':');
    proof {
        assert(v@ =~= query_filenames_pat());
    }
    v
}

/// The characters of `query-contents:`.
fn query_contents_vec() -> (r: Vec<char>)
    ensures
        r@ == query_contents_pat(),
{
    let mut v: Vec<char> = Vec::new();
    v.push('q');
    v.push('u');
    v.push('e');
    v.push('r');
    v.push('y');
    v.push('-');
    v.push('c');
    v.push('o');
    v.push('n');
    v.push('t');
    v.push('e');
    v.push('n');
    v.push('t');
    v.push('s');
    v.push(':');
    proof {
        assert(v@ =~= query_contents_pat());
    }
    v
}

/// Hyphenation of the title fragment on character vectors.
fn hyphenate_vec(v: &Vec<char>) -> (r: Vec<char>)
    ensures
        r@ == spec_hyphenate(v@),
{
    let s = subst_separators_vec(v, '-');
    let s = collapse_char_vec(&s, '-');
    strip_edges_vec(&s, '-', '-')
}

/// Equals-signing of the signature fragment on character vectors.
fn put_equals_vec(v: &Vec<char>) -> (r: Vec<char>)
    ensures
        r@ == spec_put_equals(v@),
{
    let s = subst_separators_vec(v, '=');
    let s = collapse_char_vec(&s, '=');
    strip_edges_vec(&s, '-', '=')
}

/// Replaces spaces and underscores with hyphens, collapses runs of hyphens
/// to one, and removes a leading and a trailing hyphen.
pub fn slug_hyphenate(s: &str) -> (r: String)
    ensures
        r@ == spec_hyphenate(s@),
{
    let v = str_to_chars(s);
    let v = hyphenate_vec(&v);
    chars_to_string(&v)
}

/// Replaces spaces and underscores with equals signs, collapses runs of
/// equals signs to one, and removes a leading hyphen and a trailing equals
/// sign.
pub fn slug_put_equals(s: &str) -> (r: String)
    ensures
        r@ == spec_put_equals(s@),
{
    let v = str_to_chars(s);
    let v = put_equals_vec(&v);
    chars_to_string(&v)
}

/// Removes the literal substrings `query-filenames:` and `query-contents:`
/// and any `[` immediately followed by `]` characters.
pub fn valid_identifier(identifier: &str) -> (r: String)
    ensures
        r@ == spec_valid_identifier(identifier@),
{
    let v = str_to_chars(identifier);
    let qf = query_filenames_vec();
    let v = remove_substr_vec(&v, &qf);
    let qc = query_contents_vec();
    let v = remove_substr_vec(&v, &qc);
    let v = remove_brackets_vec(&v);
    chars_to_string(&v)
}

/// Removes every dot character.
pub fn remove_dot_characters(s: &str) -> (r: String)
    ensures
        r@ == remove_char(s@, '.'),
{
    let v = str_to_chars(s);
    let v = filter_char(&v, '.');
    chars_to_string(&v)
}

/// Removes trailing token characters: `=`, `@` and `_` for a Title, and
/// additionally `-` for every other component.
pub fn trim_right_token_characters(s: &str, component: Component) -> (r: String)
    ensures
        r@ == trim_end(s@, trim_set_for(component)),
{
    let v = str_to_chars(s);
    let v = trim_tokens_vec(&v, component == Component::Title);
    chars_to_string(&v)
}

/// Collapses runs of `_`, `=` and `@` to a single occurrence, and runs of
/// `-` as well for every component but Title.
pub fn replace_consecutive_token_characters(s: &str, component: Component) -> (r: String)
    ensures
        r@ == collapse_runs(s@, collapse_set_for(component)),
{
    let v = str_to_chars(s);
    let v = collapse_tokens_vec(&v, component == Component::Title);
    chars_to_string(&v)
}

/// Title normalization before the shared pipeline tail.
pub fn sluggify_title(title: &str) -> (r: String)
    ensures
        r@ == spec_sluggify_title(title@),
{
    let v = str_to_chars(title);
    let v = filter_illegal(&v);
    let v = filter_char(&v, '=');
    let v = hyphenate_vec(&v);
    let v = lower_vec(&v);
    chars_to_string(&v)
}

/// Signature normalization before the shared pipeline tail.
pub fn sluggify_signature(signature: &str) -> (r: String)
    ensures
        r@ == spec_sluggify_signature(signature@),
{
    let v = str_to_chars(signature);
    let v = filter_illegal(&v);
    let v = filter_char(&v, '-');
    let v = put_equals_vec(&v);
    let v = lower_vec(&v);
    chars_to_string(&v)
}

/// Keyword normalization before the shared pipeline tail.
pub fn sluggify_keyword(keyword: &str) -> (r: String)
    ensures
        r@ == spec_sluggify_keyword(keyword@),
{
    let v = str_to_chars(keyword);
    let v = filter_illegal(&v);
    let v = filter_kw_separators(&v);
    let v = lower_vec(&v);
    chars_to_string(&v)
}

/// Runs one fragment through the whole pipeline for its component.
pub fn sluggify_and_apply_rules(s: &str, component: Component) -> (r: String)
    ensures
        r@ == spec_sluggify_and_apply_rules(s@, component),
{
    let v = str_to_chars(s);
    let slug: Vec<char> = match component {
        Component::Title => {
            let w = filter_illegal(&v);
            let w = filter_char(&w, '=');
            let w = hyphenate_vec(&w);
            lower_vec(&w)
        },
        Component::Keyword => {
            let w = filter_illegal(&v);
            let w = filter_kw_separators(&w);
            lower_vec(&w)
        },
        Component::Identifier => {
            let w = filter_illegal(&v);
            let qf = query_filenames_vec();
            let w = remove_substr_vec(&w, &qf);
            let qc = query_contents_vec();
            let w = remove_substr_vec(&w, &qc);
            remove_brackets_vec(&w)
        },
        Component::Signature => {
            let w = filter_illegal(&v);
            let w = filter_char(&w, '-');
            let w = put_equals_vec(&w);
            lower_vec(&w)
        },
    };
    let is_title = component == Component::Title;
    let w = filter_char(&slug, '.');
    let w = collapse_tokens_vec(&w, is_title);
    let w = trim_tokens_vec(&w, is_title);
    chars_to_string(&w)
}

} // verus!

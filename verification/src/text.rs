//! Character classes and generic sequence transformations.
//!
//! The slug pipeline is built from a small number of reusable operations on
//! sequences of characters: keeping the characters that satisfy a predicate,
//! mapping characters one for one, collapsing runs of repeated characters,
//! and trimming trailing characters.  This module defines those operations as
//! spec functions together with the lemmas the pipeline proofs need, and the
//! executable conversions between strings and character vectors.

use vstd::prelude::*;
use vstd::string::StrSliceExecFns;

verus! {

/// The fixed set of characters that is removed from every fragment.
pub open spec fn is_illegal_char(c: char) -> bool {
    ||| c == ']'
    ||| c == '['
    ||| c == '{'
    ||| c == '}'
    ||| c == '!'
    ||| c == '@'
    ||| c == '#'
    ||| c == '$'
    ||| c == '%'
    ||| c == '^'
    ||| c == '&'
    ||| c == '*'
    ||| c == '('
    ||| c == ')'
    ||| c == '+'
    ||| c == '\''
    ||| c == '"'
    ||| c == '?'
    ||| c == ','
    ||| c == '.'
    ||| c == '|'
    ||| c == ';'
    ||| c == ':'
    ||| c == '~'
    ||| c == '`'
    ||| c == '\u{2018}'
    ||| c == '\u{2019}'
    ||| c == '\u{201c}'
    ||| c == '\u{201d}'
}

/// The structural punctuation used inside fragments.
pub open spec fn is_token_char(c: char) -> bool {
    c == '-' || c == '_' || c == '=' || c == '@'
}

/// Decides `is_illegal_char` executably.
pub fn illegal_char(c: char) -> (b: bool)
    ensures
        b == is_illegal_char(c),
{
    c == ']' || c == '[' || c == '{' || c == '}' || c == '!' || c == '@' || c == '#' || c == '$'
        || c == '%' || c == '^' || c == '&' || c == '*' || c == '(' || c == ')' || c == '+'
        || c == '\'' || c == '"' || c == '?' || c == ',' || c == '.' || c == '|' || c == ';'
        || c == ':' || c == '~' || c == '`' || c == '\u{2018}' || c == '\u{2019}'
        || c == '\u{201c}' || c == '\u{201d}'
}

/// Every character of `s` satisfies `p`.
pub open spec fn seq_all(s: Seq<char>, p: spec_fn(char) -> bool) -> bool {
    forall|i: int| 0 <= i < s.len() ==> p(#[trigger] s[i])
}

/// No character satisfying `p` is immediately repeated in `s`.
pub open spec fn no_adjacent(s: Seq<char>, p: spec_fn(char) -> bool) -> bool {
    forall|i: int| 0 <= i && i + 1 < s.len() ==> !(p(#[trigger] s[i]) && s[i + 1] == s[i])
}

/// The subsequence of `s` made of the characters that satisfy `p`.
pub open spec fn keep_chars(s: Seq<char>, p: spec_fn(char) -> bool) -> Seq<char>
    decreases s.len(),
{
    if s.len() == 0 {
        s
    } else if p(s.last()) {
        keep_chars(s.drop_last(), p).push(s.last())
    } else {
        keep_chars(s.drop_last(), p)
    }
}

/// Keeping characters preserves any property all characters had.
pub proof fn lemma_keep_chars_all(s: Seq<char>, p: spec_fn(char) -> bool, q: spec_fn(char) -> bool)
    requires
        seq_all(s, q),
    ensures
        seq_all(keep_chars(s, p), q),
    decreases s.len(),
{
    if s.len() > 0 {
        assert(seq_all(s.drop_last(), q));
        lemma_keep_chars_all(s.drop_last(), p, q);
    }
}

/// All characters kept by `keep_chars` satisfy the filter.
pub proof fn lemma_keep_chars_establishes(s: Seq<char>, p: spec_fn(char) -> bool)
    ensures
        seq_all(keep_chars(s, p), p),
    decreases s.len(),
{
    if s.len() > 0 {
        lemma_keep_chars_establishes(s.drop_last(), p);
    }
}

/// `keep_chars` leaves a sequence unchanged when every character passes.
pub proof fn lemma_keep_chars_identity(s: Seq<char>, p: spec_fn(char) -> bool)
    requires
        seq_all(s, p),
    ensures
        keep_chars(s, p) == s,
    decreases s.len(),
{
    if s.len() > 0 {
        assert(seq_all(s.drop_last(), p));
        lemma_keep_chars_identity(s.drop_last(), p);
        assert(s.drop_last().push(s.last()) =~= s);
    }
}

/// `s` with every immediately repeated character satisfying `p` collapsed to
/// a single occurrence: the first character of each run is kept.
pub open spec fn collapse_runs(s: Seq<char>, p: spec_fn(char) -> bool) -> Seq<char>
    decreases s.len(),
{
    if s.len() <= 1 {
        s
    } else if p(s.last()) && s[s.len() - 2] == s.last() {
        collapse_runs(s.drop_last(), p)
    } else {
        collapse_runs(s.drop_last(), p).push(s.last())
    }
}

/// Collapsing runs yields a sequence with no immediate repetitions, keeps the
/// final character, and returns a nonempty sequence for nonempty input.
pub proof fn lemma_collapse_runs_basic(s: Seq<char>, p: spec_fn(char) -> bool)
    ensures
        no_adjacent(collapse_runs(s, p), p),
        s.len() > 0 ==> collapse_runs(s, p).len() > 0 && collapse_runs(s, p).last() == s.last(),
        s.len() == 0 ==> collapse_runs(s, p) == s,
    decreases s.len(),
{
    if s.len() > 1 {
        lemma_collapse_runs_basic(s.drop_last(), p);
    }
}

/// Collapsing runs preserves any property all characters had.
pub proof fn lemma_collapse_runs_all(
    s: Seq<char>,
    p: spec_fn(char) -> bool,
    q: spec_fn(char) -> bool,
)
    requires
        seq_all(s, q),
    ensures
        seq_all(collapse_runs(s, p), q),
    decreases s.len(),
{
    if s.len() > 1 {
        assert(seq_all(s.drop_last(), q));
        lemma_collapse_runs_all(s.drop_last(), p, q);
    }
}

/// Collapsing runs leaves a sequence with no immediate repetitions unchanged.
pub proof fn lemma_collapse_runs_identity(s: Seq<char>, p: spec_fn(char) -> bool)
    requires
        no_adjacent(s, p),
    ensures
        collapse_runs(s, p) == s,
    decreases s.len(),
{
    if s.len() > 1 {
        assert(no_adjacent(s.drop_last(), p));
        lemma_collapse_runs_identity(s.drop_last(), p);
        assert(s.drop_last().push(s.last()) =~= s);
    }
}

/// `s` without its maximal suffix of characters satisfying `p`.
pub open spec fn trim_end(s: Seq<char>, p: spec_fn(char) -> bool) -> Seq<char>
    decreases s.len(),
{
    if s.len() == 0 {
        s
    } else if p(s.last()) {
        trim_end(s.drop_last(), p)
    } else {
        s
    }
}

/// The trimmed sequence is a prefix of the input and does not end in a
/// trimmed character.
pub proof fn lemma_trim_end_prefix(s: Seq<char>, p: spec_fn(char) -> bool)
    ensures
        trim_end(s, p).len() <= s.len(),
        trim_end(s, p) == s.take(trim_end(s, p).len() as int),
        trim_end(s, p).len() > 0 ==> !p(trim_end(s, p).last()),
    decreases s.len(),
{
    if s.len() > 0 && p(s.last()) {
        lemma_trim_end_prefix(s.drop_last(), p);
        assert(s.drop_last().take(trim_end(s, p).len() as int) =~= s.take(
            trim_end(s, p).len() as int,
        ));
    } else {
        assert(s.take(s.len() as int) =~= s);
    }
}

/// Trimming leaves a sequence unchanged when it does not end in a trimmed
/// character.
pub proof fn lemma_trim_end_identity(s: Seq<char>, p: spec_fn(char) -> bool)
    requires
        s.len() > 0 ==> !p(s.last()),
    ensures
        trim_end(s, p) == s,
{
}

/// The characters of `s`, in order, as a vector.
pub fn str_to_chars(s: &str) -> (v: Vec<char>)
    ensures
        v@ == s@,
{
    let n = s.unicode_len();
    let mut v: Vec<char> = Vec::new();
    let mut i: usize = 0;
    while i < n
        invariant
            n == s@.len(),
            i <= n,
            v@ == s@.take(i as int),
        decreases n - i,
    {
        v.push(s.get_char(i));
        i += 1;
        proof {
            assert(s@.take(i as int) =~= s@.take(i as int - 1).push(s@[i as int - 1]));
        }
    }
    proof {
        assert(s@.take(n as int) =~= s@);
    }
    v
}

/// Relies on std's `FromIterator` implementation for `String`: collecting an
/// iterator of characters builds the string holding exactly those characters
/// in order.
#[verifier::external_body]
pub fn chars_to_string(v: &Vec<char>) -> (r: String)
    ensures
        r@ == v@,
{
    v.iter().collect()
}

/// A character survives `slug_keep_only_ascii` exactly when it is ASCII
/// graphic or a space; anything else becomes a space.
pub open spec fn keep_ascii_char(c: char) -> char {
    if c == ' ' || ('!' <= c && c <= '~') {
        c
    } else {
        ' '
    }
}

/// The character-wise specification of [`slug_keep_only_ascii`].
pub open spec fn spec_keep_only_ascii(s: Seq<char>) -> Seq<char> {
    s.map_values(|c: char| keep_ascii_char(c))
}

/// Replaces every character that is neither ASCII graphic nor a space with a
/// space, keeping the rest.  Useful as a helper to construct slug-like names.
pub fn slug_keep_only_ascii(s: &str) -> (r: String)
    ensures
        r@ == spec_keep_only_ascii(s@),
{
    let chars = str_to_chars(s);
    let n = chars.len();
    let mut out: Vec<char> = Vec::new();
    let mut i: usize = 0;
    while i < n
        invariant
            n == chars.len(),
            chars@ == s@,
            i <= n,
            out@ == spec_keep_only_ascii(s@.take(i as int)),
        decreases n - i,
    {
        let c = chars[i];
        if c == ' ' || ('!' <= c && c <= '~') {
            out.push(c);
        } else {
            out.push(' ');
        }
        i += 1;
        proof {
            assert(out@ =~= spec_keep_only_ascii(s@.take(i as int)));
        }
    }
    proof {
        assert(s@.take(n as int) =~= s@);
    }
    chars_to_string(&out)
}

} // verus!

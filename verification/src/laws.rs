//! The laws of the slug pipeline.
//!
//! This module proves, once and for all inputs, the global guarantees of the
//! normalization: a normalized fragment holds no illegal character, never
//! repeats a token character, never ends in a trimmed token character, and
//! running a fragment through the pipeline twice gives the same result as
//! running it once.  The assembled filename holds no illegal character
//! besides the single dot in front of the extension.

use vstd::prelude::*;
use crate::note::{spec_format_file_name, spec_join_keywords};
use crate::slug::{
    collapse_set_for, component_slug, full_collapse_set, full_trim_set, lower_char, not_char,
    not_illegal, not_kw_separator, only_char, query_contents_pat, query_filenames_pat,
    remove_bracket_runs, remove_char, remove_illegal, remove_kw_separators, remove_substr,
    skip_bracket_run, spec_sluggify_and_apply_rules, spec_sluggify_keyword,
    spec_sluggify_signature, spec_sluggify_title, strip_leading, strip_trailing, subst_char,
    subst_separators, title_collapse_set, title_trim_set, to_lower, trim_set_for, Component,
};
use crate::text::{
    collapse_runs, is_illegal_char, lemma_collapse_runs_all, lemma_collapse_runs_basic,
    lemma_collapse_runs_identity, lemma_keep_chars_all, lemma_keep_chars_establishes,
    lemma_keep_chars_identity, lemma_trim_end_identity, lemma_trim_end_prefix, no_adjacent,
    seq_all, trim_end,
};

verus! {

/// Lowercasing facts: it is idempotent, keeps a character legal, and leaves
/// every structural character alone.
pub proof fn lemma_lower_char_facts(c: char)
    ensures
        lower_char(lower_char(c)) == lower_char(c),
        !is_illegal_char(c) ==> !is_illegal_char(lower_char(c)),
        (lower_char(c) == '-') == (c == '-'),
        (lower_char(c) == '=') == (c == '='),
        (lower_char(c) == '_') == (c == '_'),
        (lower_char(c) == ' ') == (c == ' '),
        (lower_char(c) == '@') == (c == '@'),
        (lower_char(c) == '.') == (c == '.'),
        (lower_char(c) == ':') == (c == ':'),
        (lower_char(c) == '[') == (c == '['),
{
    if 'A' <= c && c <= 'Z' {
        assert(lower_char(c) == ((c as u32 + 32) as char));
        assert(97 <= lower_char(c) as u32 <= 122);
    }
}

/// A character acceptable inside a normalized title: legal, not a separator
/// the title stage removes or substitutes, and already lowercase.
pub open spec fn title_ok() -> spec_fn(char) -> bool {
    |c: char| !is_illegal_char(c) && c != '=' && c != ' ' && c != '_' && lower_char(c) == c
}

/// A character acceptable inside a normalized signature.
pub open spec fn sig_ok() -> spec_fn(char) -> bool {
    |c: char| !is_illegal_char(c) && c != '-' && c != ' ' && c != '_' && lower_char(c) == c
}

/// A character acceptable inside a normalized keyword.
pub open spec fn kw_ok() -> spec_fn(char) -> bool {
    |c: char| !is_illegal_char(c) && c != '-' && c != '=' && c != ' ' && c != '_' && lower_char(c)
        == c
}

/// The normal form of a title fragment.
pub open spec fn title_ready(t: Seq<char>) -> bool {
    &&& seq_all(t, title_ok())
    &&& no_adjacent(t, only_char('-'))
    &&& t.len() > 0 ==> t[0] != '-' && t.last() != '-'
}

/// The normal form of a signature fragment.
pub open spec fn sig_ready(t: Seq<char>) -> bool {
    &&& seq_all(t, sig_ok())
    &&& no_adjacent(t, only_char('='))
    &&& t.len() > 0 ==> t.last() != '='
}

/// The normal form of a keyword fragment.
pub open spec fn kw_ready(t: Seq<char>) -> bool {
    seq_all(t, kw_ok())
}

/// The normal form of an identifier fragment.
pub open spec fn id_ready(t: Seq<char>) -> bool {
    &&& seq_all(t, not_illegal())
    &&& no_adjacent(t, full_collapse_set())
    &&& t.len() > 0 ==> !(full_trim_set()(t.last()))
}

/// Removing a substring keeps every pointwise property of the characters.
proof fn lemma_remove_substr_all(s: Seq<char>, pat: Seq<char>, q: spec_fn(char) -> bool)
    requires
        seq_all(s, q),
    ensures
        seq_all(remove_substr(s, pat), q),
    decreases s.len(),
{
    if pat.len() == 0 || s.len() < pat.len() {
    } else if s.take(pat.len() as int) == pat {
        assert(seq_all(s.skip(pat.len() as int), q));
        lemma_remove_substr_all(s.skip(pat.len() as int), pat, q);
    } else {
        assert(seq_all(s.drop_first(), q));
        lemma_remove_substr_all(s.drop_first(), pat, q);
        let r = seq![s[0]] + remove_substr(s.drop_first(), pat);
        assert forall|i: int| 0 <= i < r.len() implies q(r[i]) by {
            if i == 0 {
                assert(r[i] == s[0]);
            } else {
                assert(r[i] == remove_substr(s.drop_first(), pat)[i - 1]);
            }
        }
    }
}

/// Removing a substring whose pattern holds a character the text lacks
/// changes nothing.
proof fn lemma_remove_substr_absent(s: Seq<char>, pat: Seq<char>, w: int, x: char)
    requires
        0 <= w < pat.len(),
        pat[w] == x,
        seq_all(s, not_char(x)),
    ensures
        remove_substr(s, pat) == s,
    decreases s.len(),
{
    if pat.len() == 0 || s.len() < pat.len() {
    } else if s.take(pat.len() as int) == pat {
        assert(s.take(pat.len() as int)[w] == s[w]);
        assert(false);
    } else {
        assert(seq_all(s.drop_first(), not_char(x)));
        lemma_remove_substr_absent(s.drop_first(), pat, w, x);
        assert(seq![s[0]] + s.drop_first() =~= s);
    }
}

/// Removing bracket runs keeps every pointwise property of the characters.
proof fn lemma_remove_brackets_all(s: Seq<char>, q: spec_fn(char) -> bool)
    requires
        seq_all(s, q),
    ensures
        seq_all(remove_bracket_runs(s), q),
    decreases s.len(), 0int,
{
    if s.len() >= 2 && s[0] == '[' && s[1] == ']' {
        assert(seq_all(s.skip(2), q));
        lemma_skip_brackets_all(s.skip(2), q);
    } else if s.len() > 0 {
        assert(seq_all(s.drop_first(), q));
        lemma_remove_brackets_all(s.drop_first(), q);
        let r = seq![s[0]] + remove_bracket_runs(s.drop_first());
        assert forall|i: int| 0 <= i < r.len() implies q(r[i]) by {
            if i == 0 {
                assert(r[i] == s[0]);
            } else {
                assert(r[i] == remove_bracket_runs(s.drop_first())[i - 1]);
            }
        }
    }
}

/// Companion of [`lemma_remove_brackets_all`] for the run-skipping state.
proof fn lemma_skip_brackets_all(s: Seq<char>, q: spec_fn(char) -> bool)
    requires
        seq_all(s, q),
    ensures
        seq_all(skip_bracket_run(s), q),
    decreases s.len(), 1int,
{
    if s.len() > 0 && s[0] == ']' {
        assert(seq_all(s.drop_first(), q));
        lemma_skip_brackets_all(s.drop_first(), q);
    } else {
        lemma_remove_brackets_all(s, q);
    }
}

/// Removing bracket runs changes nothing when no `[` is present.
proof fn lemma_remove_brackets_absent(s: Seq<char>)
    requires
        seq_all(s, not_char('[')),
    ensures
        remove_bracket_runs(s) == s,
    decreases s.len(),
{
    if s.len() > 0 {
        assert(s[0] != '[');
        assert(seq_all(s.drop_first(), not_char('[')));
        lemma_remove_brackets_absent(s.drop_first());
        assert(seq![s[0]] + s.drop_first() =~= s);
    }
}

/// The shared pipeline tail (dot removal, run collapsing, right trimming)
/// leaves a fragment in normal form unchanged.
proof fn lemma_tail_identity(u: Seq<char>, component: Component)
    requires
        seq_all(u, not_char('.')),
        no_adjacent(u, collapse_set_for(component)),
        u.len() > 0 ==> !(trim_set_for(component)(u.last())),
    ensures
        trim_end(
            collapse_runs(remove_char(u, '.'), collapse_set_for(component)),
            trim_set_for(component),
        ) == u,
{
    lemma_keep_chars_identity(u, not_char('.'));
    lemma_collapse_runs_identity(u, collapse_set_for(component));
    lemma_trim_end_identity(u, trim_set_for(component));
}

/// The title head stage yields a fragment in title normal form.
proof fn lemma_title_head(s: Seq<char>)
    ensures
        title_ready(spec_sluggify_title(s)),
{
    let a = remove_illegal(s);
    lemma_keep_chars_establishes(s, not_illegal());
    let b = remove_char(a, '=');
    lemma_keep_chars_all(a, not_char('='), not_illegal());
    lemma_keep_chars_establishes(a, not_char('='));
    let c = subst_separators(b, '-');
    assert forall|i: int| 0 <= i < c.len() implies !is_illegal_char(#[trigger] c[i]) && c[i] != '='
        && c[i] != ' ' && c[i] != '_' by {
        assert(c[i] == subst_char(b[i], '-'));
        assert(!is_illegal_char(b[i]) && b[i] != '=');
    }
    let d = collapse_runs(c, only_char('-'));
    lemma_collapse_runs_basic(c, only_char('-'));
    assert forall|i: int| 0 <= i < d.len() implies !is_illegal_char(#[trigger] d[i]) && d[i] != '='
        && d[i] != ' ' && d[i] != '_' by {
        lemma_collapse_runs_all(c, only_char('-'), |x: char| !is_illegal_char(x) && x != '=' && x
            != ' ' && x != '_');
    }
    let e = strip_leading(d, '-');
    assert(no_adjacent(e, only_char('-'))) by {
        if d.len() > 0 && d[0] == '-' {
            assert forall|i: int| 0 <= i && i + 1 < e.len() implies !(only_char('-')(
                #[trigger] e[i],
            ) && e[i + 1] == e[i]) by {
                assert(e[i] == d[i + 1] && e[i + 1] == d[i + 2]);
            }
        }
    }
    assert(e.len() > 0 ==> e[0] != '-') by {
        if d.len() > 0 && d[0] == '-' && e.len() > 0 {
            assert(e[0] == d[1]);
            assert(!(only_char('-')(d[0]) && d[1] == d[0]));
        }
    }
    let f = strip_trailing(e, '-');
    assert(f.len() > 0 ==> f.last() != '-') by {
        if e.len() > 0 && e.last() == '-' && f.len() > 0 {
            assert(f.last() == e[e.len() - 2]);
            assert(!(only_char('-')(e[e.len() - 2]) && e[e.len() - 1] == e[e.len() - 2]));
        }
    }
    let g = to_lower(f);
    assert(g == spec_sluggify_title(s));
    assert forall|i: int| 0 <= i < g.len() implies title_ok()(#[trigger] g[i]) by {
        assert(g[i] == lower_char(f[i]));
        assert(!is_illegal_char(f[i]) && f[i] != '=' && f[i] != ' ' && f[i] != '_');
        lemma_lower_char_facts(f[i]);
    }
    assert(no_adjacent(g, only_char('-'))) by {
        assert forall|i: int| 0 <= i && i + 1 < g.len() implies !(only_char('-')(#[trigger] g[i])
            && g[i + 1] == g[i]) by {
            assert(g[i] == lower_char(f[i]) && g[i + 1] == lower_char(f[i + 1]));
            lemma_lower_char_facts(f[i]);
            lemma_lower_char_facts(f[i + 1]);
        }
    }
    assert(g.len() > 0 ==> g[0] != '-' && g.last() != '-') by {
        if g.len() > 0 {
            assert(g[0] == lower_char(f[0]) && g.last() == lower_char(f.last()));
            lemma_lower_char_facts(f[0]);
            lemma_lower_char_facts(f.last());
        }
    }
}

/// The signature head stage yields a fragment in signature normal form.
proof fn lemma_sig_head(s: Seq<char>)
    ensures
        sig_ready(spec_sluggify_signature(s)),
{
    let a = remove_illegal(s);
    lemma_keep_chars_establishes(s, not_illegal());
    let b = remove_char(a, '-');
    lemma_keep_chars_all(a, not_char('-'), not_illegal());
    lemma_keep_chars_establishes(a, not_char('-'));
    let c = subst_separators(b, '=');
    assert forall|i: int| 0 <= i < c.len() implies !is_illegal_char(#[trigger] c[i]) && c[i] != '-'
        && c[i] != ' ' && c[i] != '_' by {
        assert(c[i] == subst_char(b[i], '='));
        assert(!is_illegal_char(b[i]) && b[i] != '-');
    }
    let d = collapse_runs(c, only_char('='));
    lemma_collapse_runs_basic(c, only_char('='));
    lemma_collapse_runs_all(c, only_char('='), |x: char| !is_illegal_char(x) && x != '-' && x
        != ' ' && x != '_');
    let e = strip_leading(d, '-');
    assert(e == d) by {
        if d.len() > 0 {
            assert(d[0] != '-');
        }
    }
    let f = strip_trailing(d, '=');
    assert(f.len() > 0 ==> f.last() != '=') by {
        if d.len() > 0 && d.last() == '=' && f.len() > 0 {
            assert(f.last() == d[d.len() - 2]);
            assert(!(only_char('=')(d[d.len() - 2]) && d[d.len() - 1] == d[d.len() - 2]));
        }
    }
    assert(no_adjacent(f, only_char('='))) by {
        assert forall|i: int| 0 <= i && i + 1 < f.len() implies !(only_char('=')(#[trigger] f[i])
            && f[i + 1] == f[i]) by {
            assert(f[i] == d[i] && f[i + 1] == d[i + 1]);
        }
    }
    let g = to_lower(f);
    assert(g == spec_sluggify_signature(s));
    assert forall|i: int| 0 <= i < g.len() implies sig_ok()(#[trigger] g[i]) by {
        assert(g[i] == lower_char(f[i]));
        assert(!is_illegal_char(f[i]) && f[i] != '-' && f[i] != ' ' && f[i] != '_');
        lemma_lower_char_facts(f[i]);
    }
    assert(no_adjacent(g, only_char('='))) by {
        assert forall|i: int| 0 <= i && i + 1 < g.len() implies !(only_char('=')(#[trigger] g[i])
            && g[i + 1] == g[i]) by {
            assert(g[i] == lower_char(f[i]) && g[i + 1] == lower_char(f[i + 1]));
            lemma_lower_char_facts(f[i]);
            lemma_lower_char_facts(f[i + 1]);
        }
    }
    assert(g.len() > 0 ==> g.last() != '=') by {
        if g.len() > 0 {
            assert(g.last() == lower_char(f.last()));
            lemma_lower_char_facts(f.last());
        }
    }
}

/// The keyword head stage yields a fragment in keyword normal form.
proof fn lemma_kw_head(s: Seq<char>)
    ensures
        kw_ready(spec_sluggify_keyword(s)),
{
    let a = remove_illegal(s);
    lemma_keep_chars_establishes(s, not_illegal());
    let b = remove_kw_separators(a);
    lemma_keep_chars_all(a, not_kw_separator(), not_illegal());
    lemma_keep_chars_establishes(a, not_kw_separator());
    let g = to_lower(b);
    assert(g == spec_sluggify_keyword(s));
    assert forall|i: int| 0 <= i < g.len() implies kw_ok()(#[trigger] g[i]) by {
        assert(g[i] == lower_char(b[i]));
        assert(!is_illegal_char(b[i]) && !(b[i] == ' ' || b[i] == '-' || b[i] == '=' || b[i]
            == '_'));
        lemma_lower_char_facts(b[i]);
    }
}

/// The identifier pipeline yields a fragment in identifier normal form, and
/// equals its own definition unfolded.
proof fn lemma_id_norm(s: Seq<char>)
    ensures
        id_ready(spec_sluggify_and_apply_rules(s, Component::Identifier)),
{
    let a = remove_illegal(s);
    lemma_keep_chars_establishes(s, not_illegal());
    let b = remove_substr(a, query_filenames_pat());
    lemma_remove_substr_all(a, query_filenames_pat(), not_illegal());
    let c = remove_substr(b, query_contents_pat());
    lemma_remove_substr_all(b, query_contents_pat(), not_illegal());
    let d = remove_bracket_runs(c);
    lemma_remove_brackets_all(c, not_illegal());
    assert(d == component_slug(s, Component::Identifier));
    let e = remove_char(d, '.');
    lemma_keep_chars_all(d, not_char('.'), not_illegal());
    let f = collapse_runs(e, full_collapse_set());
    lemma_collapse_runs_basic(e, full_collapse_set());
    lemma_collapse_runs_all(e, full_collapse_set(), not_illegal());
    let g = trim_end(f, full_trim_set());
    lemma_trim_end_prefix(f, full_trim_set());
    assert(g == spec_sluggify_and_apply_rules(s, Component::Identifier));
    assert forall|i: int| 0 <= i < g.len() implies not_illegal()(#[trigger] g[i]) by {
        assert(g[i] == f[i]);
    }
    assert(no_adjacent(g, full_collapse_set())) by {
        assert forall|i: int| 0 <= i && i + 1 < g.len() implies !(full_collapse_set()(
            #[trigger] g[i],
        ) && g[i + 1] == g[i]) by {
            assert(g[i] == f[i] && g[i + 1] == f[i + 1]);
        }
    }
}

/// A title in normal form passes the whole pipeline unchanged.
proof fn lemma_title_fix(t: Seq<char>)
    requires
        title_ready(t),
    ensures
        spec_sluggify_and_apply_rules(t, Component::Title) == t,
{
    assert(seq_all(t, not_illegal()));
    lemma_keep_chars_identity(t, not_illegal());
    assert(seq_all(t, not_char('=')));
    lemma_keep_chars_identity(t, not_char('='));
    assert(subst_separators(t, '-') =~= t) by {
        assert forall|i: int| 0 <= i < t.len() implies subst_separators(t, '-')[i] == t[i] by {
            assert(title_ok()(t[i]));
        }
    }
    assert(no_adjacent(t, only_char('-')));
    lemma_collapse_runs_identity(t, only_char('-'));
    assert(strip_leading(t, '-') == t);
    assert(strip_trailing(t, '-') == t);
    assert(to_lower(t) =~= t) by {
        assert forall|i: int| 0 <= i < t.len() implies to_lower(t)[i] == t[i] by {
            assert(title_ok()(t[i]));
        }
    }
    assert(spec_sluggify_title(t) == t);
    assert(seq_all(t, not_char('.'))) by {
        assert forall|i: int| 0 <= i < t.len() implies not_char('.')(#[trigger] t[i]) by {
            assert(title_ok()(t[i]));
        }
    }
    assert(no_adjacent(t, title_collapse_set())) by {
        assert forall|i: int| 0 <= i && i + 1 < t.len() implies !(title_collapse_set()(
            #[trigger] t[i],
        ) && t[i + 1] == t[i]) by {
            assert(title_ok()(t[i]));
        }
    }
    assert(t.len() > 0 ==> !(title_trim_set()(t.last()))) by {
        if t.len() > 0 {
            assert(title_ok()(t.last()));
        }
    }
    lemma_tail_identity(t, Component::Title);
}

/// A signature in normal form passes the whole pipeline unchanged.
proof fn lemma_sig_fix(t: Seq<char>)
    requires
        sig_ready(t),
    ensures
        spec_sluggify_and_apply_rules(t, Component::Signature) == t,
{
    assert(seq_all(t, not_illegal()));
    lemma_keep_chars_identity(t, not_illegal());
    assert(seq_all(t, not_char('-')));
    lemma_keep_chars_identity(t, not_char('-'));
    assert(subst_separators(t, '=') =~= t) by {
        assert forall|i: int| 0 <= i < t.len() implies subst_separators(t, '=')[i] == t[i] by {
            assert(sig_ok()(t[i]));
        }
    }
    assert(no_adjacent(t, only_char('=')));
    lemma_collapse_runs_identity(t, only_char('='));
    assert(strip_leading(t, '-') == t) by {
        if t.len() > 0 {
            assert(sig_ok()(t[0]));
        }
    }
    assert(strip_trailing(t, '=') == t);
    assert(to_lower(t) =~= t) by {
        assert forall|i: int| 0 <= i < t.len() implies to_lower(t)[i] == t[i] by {
            assert(sig_ok()(t[i]));
        }
    }
    assert(spec_sluggify_signature(t) == t);
    assert(seq_all(t, not_char('.'))) by {
        assert forall|i: int| 0 <= i < t.len() implies not_char('.')(#[trigger] t[i]) by {
            assert(sig_ok()(t[i]));
        }
    }
    assert(no_adjacent(t, full_collapse_set())) by {
        assert forall|i: int| 0 <= i && i + 1 < t.len() implies !(full_collapse_set()(
            #[trigger] t[i],
        ) && t[i + 1] == t[i]) by {
            assert(sig_ok()(t[i]) && sig_ok()(t[i + 1]));
        }
    }
    assert(t.len() > 0 ==> !(full_trim_set()(t.last()))) by {
        if t.len() > 0 {
            assert(sig_ok()(t.last()));
        }
    }
    lemma_tail_identity(t, Component::Signature);
}

/// A keyword in normal form passes the whole pipeline unchanged.
proof fn lemma_kw_fix(t: Seq<char>)
    requires
        kw_ready(t),
    ensures
        spec_sluggify_and_apply_rules(t, Component::Keyword) == t,
{
    assert(seq_all(t, not_illegal()));
    lemma_keep_chars_identity(t, not_illegal());
    assert(seq_all(t, not_kw_separator()));
    lemma_keep_chars_identity(t, not_kw_separator());
    assert(to_lower(t) =~= t) by {
        assert forall|i: int| 0 <= i < t.len() implies to_lower(t)[i] == t[i] by {
            assert(kw_ok()(t[i]));
        }
    }
    assert(spec_sluggify_keyword(t) == t);
    assert(seq_all(t, not_char('.'))) by {
        assert forall|i: int| 0 <= i < t.len() implies not_char('.')(#[trigger] t[i]) by {
            assert(kw_ok()(t[i]));
        }
    }
    assert(no_adjacent(t, full_collapse_set())) by {
        assert forall|i: int| 0 <= i && i + 1 < t.len() implies !(full_collapse_set()(
            #[trigger] t[i],
        ) && t[i + 1] == t[i]) by {
            assert(kw_ok()(t[i]));
        }
    }
    assert(t.len() > 0 ==> !(full_trim_set()(t.last()))) by {
        if t.len() > 0 {
            assert(kw_ok()(t.last()));
        }
    }
    lemma_tail_identity(t, Component::Keyword);
}

/// An identifier in normal form passes the whole pipeline unchanged.
proof fn lemma_id_fix(t: Seq<char>)
    requires
        id_ready(t),
    ensures
        spec_sluggify_and_apply_rules(t, Component::Identifier) == t,
{
    lemma_keep_chars_identity(t, not_illegal());
    assert(seq_all(t, not_char(':'))) by {
        assert forall|i: int| 0 <= i < t.len() implies not_char(':')(#[trigger] t[i]) by {
            assert(not_illegal()(t[i]));
            assert(is_illegal_char(':'));
        }
    }
    assert(query_filenames_pat()[15] == ':');
    lemma_remove_substr_absent(t, query_filenames_pat(), 15, ':');
    assert(query_contents_pat()[14] == ':');
    lemma_remove_substr_absent(t, query_contents_pat(), 14, ':');
    assert(seq_all(t, not_char('['))) by {
        assert forall|i: int| 0 <= i < t.len() implies not_char('[')(#[trigger] t[i]) by {
            assert(not_illegal()(t[i]));
            assert(is_illegal_char('['));
        }
    }
    lemma_remove_brackets_absent(t);
    assert(component_slug(t, Component::Identifier) == t);
    assert(seq_all(t, not_char('.'))) by {
        assert forall|i: int| 0 <= i < t.len() implies not_char('.')(#[trigger] t[i]) by {
            assert(not_illegal()(t[i]));
            assert(is_illegal_char('.'));
        }
    }
    lemma_tail_identity(t, Component::Identifier);
}

/// For Title, Signature and Keyword fragments the whole pipeline equals its
/// head stage: the head leaves the fragment in normal form, so the shared
/// tail finds nothing left to do.
proof fn lemma_head_is_norm(s: Seq<char>, component: Component)
    requires
        !(component is Identifier),
    ensures
        component is Title ==> spec_sluggify_and_apply_rules(s, component)
            == spec_sluggify_title(s),
        component is Signature ==> spec_sluggify_and_apply_rules(s, component)
            == spec_sluggify_signature(s),
        component is Keyword ==> spec_sluggify_and_apply_rules(s, component)
            == spec_sluggify_keyword(s),
{
    match component {
        Component::Title => {
            lemma_title_head(s);
            let t = spec_sluggify_title(s);
            assert(seq_all(t, not_char('.'))) by {
                assert forall|i: int| 0 <= i < t.len() implies not_char('.')(#[trigger] t[i]) by {
                    assert(title_ok()(t[i]));
                }
            }
            assert(no_adjacent(t, title_collapse_set())) by {
                assert forall|i: int| 0 <= i && i + 1 < t.len() implies !(title_collapse_set()(
                    #[trigger] t[i],
                ) && t[i + 1] == t[i]) by {
                    assert(title_ok()(t[i]));
                }
            }
            assert(t.len() > 0 ==> !(title_trim_set()(t.last()))) by {
                if t.len() > 0 {
                    assert(title_ok()(t.last()));
                }
            }
            lemma_tail_identity(t, Component::Title);
        },
        Component::Signature => {
            lemma_sig_head(s);
            let t = spec_sluggify_signature(s);
            assert(seq_all(t, not_char('.'))) by {
                assert forall|i: int| 0 <= i < t.len() implies not_char('.')(#[trigger] t[i]) by {
                    assert(sig_ok()(t[i]));
                }
            }
            assert(no_adjacent(t, full_collapse_set())) by {
                assert forall|i: int| 0 <= i && i + 1 < t.len() implies !(full_collapse_set()(
                    #[trigger] t[i],
                ) && t[i + 1] == t[i]) by {
                    assert(sig_ok()(t[i]) && sig_ok()(t[i + 1]));
                }
            }
            assert(t.len() > 0 ==> !(full_trim_set()(t.last()))) by {
                if t.len() > 0 {
                    assert(sig_ok()(t.last()));
                }
            }
            lemma_tail_identity(t, Component::Signature);
        },
        Component::Keyword => {
            lemma_kw_head(s);
            let t = spec_sluggify_keyword(s);
            assert(seq_all(t, not_char('.'))) by {
                assert forall|i: int| 0 <= i < t.len() implies not_char('.')(#[trigger] t[i]) by {
                    assert(kw_ok()(t[i]));
                }
            }
            assert(no_adjacent(t, full_collapse_set())) by {
                assert forall|i: int| 0 <= i && i + 1 < t.len() implies !(full_collapse_set()(
                    #[trigger] t[i],
                ) && t[i + 1] == t[i]) by {
                    assert(kw_ok()(t[i]));
                }
            }
            assert(t.len() > 0 ==> !(full_trim_set()(t.last()))) by {
                if t.len() > 0 {
                    assert(kw_ok()(t.last()));
                }
            }
            lemma_tail_identity(t, Component::Keyword);
        },
        Component::Identifier => {},
    }
}

/// Idempotence: normalizing a fragment twice equals normalizing it once,
/// for every component.
pub proof fn lemma_sluggify_idempotent(s: Seq<char>, component: Component)
    ensures
        spec_sluggify_and_apply_rules(spec_sluggify_and_apply_rules(s, component), component)
            == spec_sluggify_and_apply_rules(s, component),
{
    match component {
        Component::Title => {
            lemma_head_is_norm(s, component);
            lemma_title_head(s);
            lemma_title_fix(spec_sluggify_title(s));
        },
        Component::Signature => {
            lemma_head_is_norm(s, component);
            lemma_sig_head(s);
            lemma_sig_fix(spec_sluggify_signature(s));
        },
        Component::Keyword => {
            lemma_head_is_norm(s, component);
            lemma_kw_head(s);
            lemma_kw_fix(spec_sluggify_keyword(s));
        },
        Component::Identifier => {
            lemma_id_norm(s);
            lemma_id_fix(spec_sluggify_and_apply_rules(s, Component::Identifier));
        },
    }
}

/// A normalized fragment holds no character of the fixed illegal set, for
/// every input and every component.
pub proof fn lemma_fragment_legal(s: Seq<char>, component: Component)
    ensures
        seq_all(spec_sluggify_and_apply_rules(s, component), not_illegal()),
{
    let r = spec_sluggify_and_apply_rules(s, component);
    match component {
        Component::Title => {
            lemma_head_is_norm(s, component);
            lemma_title_head(s);
            assert forall|i: int| 0 <= i < r.len() implies not_illegal()(#[trigger] r[i]) by {
                assert(title_ok()(r[i]));
            }
        },
        Component::Signature => {
            lemma_head_is_norm(s, component);
            lemma_sig_head(s);
            assert forall|i: int| 0 <= i < r.len() implies not_illegal()(#[trigger] r[i]) by {
                assert(sig_ok()(r[i]));
            }
        },
        Component::Keyword => {
            lemma_head_is_norm(s, component);
            lemma_kw_head(s);
            assert forall|i: int| 0 <= i < r.len() implies not_illegal()(#[trigger] r[i]) by {
                assert(kw_ok()(r[i]));
            }
        },
        Component::Identifier => {
            lemma_id_norm(s);
        },
    }
}

/// A normalized fragment never holds two equal adjacent token characters,
/// for every input and every component.
pub proof fn lemma_fragment_no_doubled_tokens(s: Seq<char>, component: Component)
    ensures
        no_adjacent(spec_sluggify_and_apply_rules(s, component), full_collapse_set()),
{
    let r = spec_sluggify_and_apply_rules(s, component);
    match component {
        Component::Title => {
            lemma_head_is_norm(s, component);
            lemma_title_head(s);
            assert forall|i: int| 0 <= i && i + 1 < r.len() implies !(full_collapse_set()(
                #[trigger] r[i],
            ) && r[i + 1] == r[i]) by {
                assert(title_ok()(r[i]) && title_ok()(r[i + 1]));
            }
        },
        Component::Signature => {
            lemma_head_is_norm(s, component);
            lemma_sig_head(s);
            assert forall|i: int| 0 <= i && i + 1 < r.len() implies !(full_collapse_set()(
                #[trigger] r[i],
            ) && r[i + 1] == r[i]) by {
                assert(sig_ok()(r[i]) && sig_ok()(r[i + 1]));
            }
        },
        Component::Keyword => {
            lemma_head_is_norm(s, component);
            lemma_kw_head(s);
            assert forall|i: int| 0 <= i && i + 1 < r.len() implies !(full_collapse_set()(
                #[trigger] r[i],
            ) && r[i + 1] == r[i]) by {
                assert(kw_ok()(r[i]));
            }
        },
        Component::Identifier => {
            lemma_id_norm(s);
        },
    }
}

/// Trailing-character law: a normalized Title never ends in `=`, `@` or
/// `_`; every other normalized component never ends in `=`, `@`, `_` or
/// `-`.
pub proof fn lemma_fragment_trailing(s: Seq<char>, component: Component)
    ensures
        ({
            let r = spec_sluggify_and_apply_rules(s, component);
            r.len() > 0 ==> r.last() != '=' && r.last() != '@' && r.last() != '_' && (!(component
                is Title) ==> r.last() != '-')
        }),
{
    let r = spec_sluggify_and_apply_rules(s, component);
    match component {
        Component::Title => {
            lemma_head_is_norm(s, component);
            lemma_title_head(s);
            if r.len() > 0 {
                assert(title_ok()(r.last()));
            }
        },
        Component::Signature => {
            lemma_head_is_norm(s, component);
            lemma_sig_head(s);
            if r.len() > 0 {
                assert(sig_ok()(r.last()));
            }
        },
        Component::Keyword => {
            lemma_head_is_norm(s, component);
            lemma_kw_head(s);
            if r.len() > 0 {
                assert(kw_ok()(r.last()));
            }
        },
        Component::Identifier => {
            lemma_id_norm(s);
            if r.len() > 0 {
                assert(!(full_trim_set()(r.last())));
            }
        },
    }
}

/// The joined normalized keywords hold no illegal character.
proof fn lemma_join_keywords_legal(ks: Seq<Seq<char>>)
    ensures
        seq_all(spec_join_keywords(ks), not_illegal()),
    decreases ks.len(),
{
    if ks.len() == 0 {
    } else if ks.len() == 1 {
        lemma_fragment_legal(ks[0], Component::Keyword);
    } else {
        lemma_join_keywords_legal(ks.drop_last());
        lemma_fragment_legal(ks.last(), Component::Keyword);
        let a = spec_join_keywords(ks.drop_last());
        let b = spec_sluggify_and_apply_rules(ks.last(), Component::Keyword);
        let r = a + seq!['_'] + b;
        assert forall|i: int| 0 <= i < r.len() implies not_illegal()(#[trigger] r[i]) by {
            if i < a.len() {
                assert(r[i] == a[i]);
            } else if i == a.len() {
                assert(r[i] == '_');
            } else {
                assert(r[i] == b[i - a.len() - 1]);
            }
        }
    }
}

/// For every input, the assembled filename holds no character of the fixed
/// illegal set and no dot but the one in front of the extension, provided
/// the extension itself — appended verbatim by design — is free of them.
pub proof fn lemma_filename_legal(
    identifier: Seq<char>,
    title: Seq<char>,
    signature: Option<Seq<char>>,
    keywords: Seq<Seq<char>>,
    extension: Seq<char>,
)
    requires
        seq_all(extension, not_illegal()),
    ensures
        ({
            let r = spec_format_file_name(identifier, title, signature, keywords, extension);
            let dot = r.len() - extension.len() - 1;
            &&& r.len() == dot + 1 + extension.len()
            &&& r[dot] == '.'
            &&& forall|i: int| 0 <= i < r.len() && i != dot ==> !is_illegal_char(#[trigger] r[i])
        }),
{
    let idp = spec_sluggify_and_apply_rules(identifier, Component::Identifier);
    let sigp = match signature {
        Some(s) => seq!['=', '='] + spec_sluggify_and_apply_rules(s, Component::Signature),
        None => Seq::<char>::empty(),
    };
    let titlep = seq!['-', '-'] + spec_sluggify_and_apply_rules(title, Component::Title);
    let kwp = if keywords.len() > 0 {
        seq!['_', '_'] + spec_join_keywords(keywords)
    } else {
        Seq::<char>::empty()
    };
    let prefix = idp + sigp + titlep + kwp;
    lemma_fragment_legal(identifier, Component::Identifier);
    lemma_fragment_legal(title, Component::Title);
    assert(seq_all(sigp, not_illegal())) by {
        match signature {
            Some(s) => {
                lemma_fragment_legal(s, Component::Signature);
                let b = spec_sluggify_and_apply_rules(s, Component::Signature);
                assert forall|i: int| 0 <= i < sigp.len() implies not_illegal()(
                    #[trigger] sigp[i],
                ) by {
                    if i >= 2 {
                        assert(sigp[i] == b[i - 2]);
                    }
                }
            },
            None => {},
        }
    }
    assert(seq_all(kwp, not_illegal())) by {
        if keywords.len() > 0 {
            lemma_join_keywords_legal(keywords);
            let b = spec_join_keywords(keywords);
            assert forall|i: int| 0 <= i < kwp.len() implies not_illegal()(#[trigger] kwp[i]) by {
                if i >= 2 {
                    assert(kwp[i] == b[i - 2]);
                }
            }
        }
    }
    assert(seq_all(prefix, not_illegal())) by {
        let b = spec_sluggify_and_apply_rules(title, Component::Title);
        assert forall|i: int| 0 <= i < prefix.len() implies not_illegal()(#[trigger] prefix[i]) by {
            if i < idp.len() {
                assert(prefix[i] == idp[i]);
            } else if i < idp.len() + sigp.len() {
                assert(prefix[i] == sigp[i - idp.len()]);
            } else if i < idp.len() + sigp.len() + titlep.len() {
                assert(prefix[i] == titlep[i - idp.len() - sigp.len()]);
                if i - idp.len() - sigp.len() >= 2 {
                    assert(titlep[i - idp.len() - sigp.len()] == b[i - idp.len() - sigp.len() - 2]);
                }
            } else {
                assert(prefix[i] == kwp[i - idp.len() - sigp.len() - titlep.len()]);
            }
        }
    }
    let r = spec_format_file_name(identifier, title, signature, keywords, extension);
    assert(r =~= prefix + seq!['.'] + extension);
    let dot = prefix.len() as int;
    assert(r[dot] == '.');
    assert forall|i: int| 0 <= i < r.len() && i != dot implies !is_illegal_char(
        #[trigger] r[i],
    ) by {
        if i < dot {
            assert(r[i] == prefix[i]);
            assert(not_illegal()(prefix[i]));
        } else {
            assert(r[i] == extension[i - dot - 1]);
            assert(not_illegal()(extension[i - dot - 1]));
        }
    }
}

} // verus!

use nn::{
    remove_dot_characters, replace_consecutive_token_characters, slug_hyphenate, slug_keep_only_ascii,
    slug_put_equals, sluggify_and_apply_rules, sluggify_keyword, sluggify_signature, sluggify_title,
    trim_right_token_characters, valid_identifier, Component, Note,
};

const ILLEGAL: [char; 29] = [
    ']', '[', '{', '}', '!', '@', '#', '$', '%', '^', '&', '*', '(', ')', '+', '\'', '"', '?', ',',
    '.', '|', ';', ':', '~', '`', '\u{2018}', '\u{2019}', '\u{201c}', '\u{201d}',
];

#[test]
fn scenario_plain_title() {
    let name = Note::new(
        "20240315T090000".to_string(),
        "My Cool   Note!!".to_string(),
        None,
        vec![],
        "md".to_string(),
    )
    .format_file_name();
    assert_eq!(name, "20240315T090000--my-cool-note.md");
}

#[test]
fn scenario_signature_and_keywords() {
    let name = Note::new(
        "20240315T090000".to_string(),
        "Draft".to_string(),
        Some("Jane Doe".to_string()),
        vec!["rust".to_string(), "cli".to_string()],
        "txt".to_string(),
    )
    .format_file_name();
    // Spaces in a signature become `=`, per the signature substitution rule.
    assert_eq!(name, "20240315T090000==jane=doe--draft__rust_cli.txt");
}

#[test]
fn scenario_empty_title() {
    let name = Note::new(
        "20240315T090000".to_string(),
        "".to_string(),
        None,
        vec![],
        "md".to_string(),
    )
    .format_file_name();
    assert_eq!(name, "20240315T090000--.md");
}

#[test]
fn scenario_repeated_punctuation() {
    // `=` is removed outright for a Title before hyphen substitution, so the
    // two words around it join; the hyphen run collapses to one.
    assert_eq!(
        sluggify_and_apply_rules("Hello---World===Test", Component::Title),
        "hello-worldtest"
    );
}

#[test]
fn idempotent_on_normalized_fragments() {
    let inputs = ["My Cool   Note!!", "Jane Doe", "Rust CLI!", "query-filenames:2024.03[]15T"];
    for input in inputs {
        for component in [
            Component::Title,
            Component::Keyword,
            Component::Identifier,
            Component::Signature,
        ] {
            let once = sluggify_and_apply_rules(input, component);
            let twice = sluggify_and_apply_rules(&once, component);
            assert_eq!(once, twice);
        }
    }
}

#[test]
fn output_has_no_illegal_characters() {
    let name = Note::new(
        "2024!03@15?T09[0000]".to_string(),
        "St‘r’a“n”g{e}; Title~".to_string(),
        Some("A|u+t^h%o$r".to_string()),
        vec!["a&b".to_string(), "c*d".to_string()],
        "md".to_string(),
    )
    .format_file_name();
    let dots: Vec<usize> = name
        .char_indices()
        .filter(|(_, c)| *c == '.')
        .map(|(i, _)| i)
        .collect();
    assert_eq!(dots.len(), 1);
    assert!(name.ends_with(".md"));
    for c in name[..dots[0]].chars() {
        assert!(!ILLEGAL.contains(&c), "illegal {c:?} in {name:?}");
    }
}

#[test]
fn no_doubled_token_characters_in_fragments() {
    for component in [
        Component::Title,
        Component::Keyword,
        Component::Identifier,
        Component::Signature,
    ] {
        let out = sluggify_and_apply_rules("a--b__c==d  e@@f", component);
        let chars: Vec<char> = out.chars().collect();
        for w in chars.windows(2) {
            let doubled = w[0] == w[1] && ['-', '_', '=', '@'].contains(&w[0]);
            assert!(!doubled, "doubled {:?} in {out:?} for {component:?}", w[0]);
        }
    }
}

#[test]
fn fragments_do_not_end_in_trimmed_tokens() {
    for component in [
        Component::Title,
        Component::Keyword,
        Component::Identifier,
        Component::Signature,
    ] {
        let out = sluggify_and_apply_rules("note book_=@", component);
        if let Some(last) = out.chars().last() {
            assert!(last != '=' && last != '@' && last != '_');
            if component != Component::Title {
                assert!(last != '-');
            }
        }
    }
}

#[test]
fn all_illegal_input_normalizes_to_empty() {
    assert_eq!(sluggify_and_apply_rules("!@#$%^&*()", Component::Title), "");
    assert_eq!(sluggify_and_apply_rules("", Component::Keyword), "");
}

#[test]
fn valid_identifier_removes_query_prefixes() {
    assert_eq!(valid_identifier("query-filenames:abc"), "abc");
    assert_eq!(valid_identifier("query-contents:abc"), "abc");
    assert_eq!(valid_identifier("xquery-filenames:y"), "xy");
}

#[test]
fn valid_identifier_bracket_runs() {
    assert_eq!(valid_identifier("a[]b"), "ab");
    assert_eq!(valid_identifier("x[]]]y"), "xy");
    // A bracketed infix is kept: only `[` directly followed by `]` goes.
    assert_eq!(valid_identifier("a[b]c"), "a[b]c");
    assert_eq!(valid_identifier("a(b)c"), "a(b)c");
}

#[test]
fn pipeline_identifier_strips_illegal_characters() {
    assert_eq!(
        sluggify_and_apply_rules("2024(03)15T09:00:00", Component::Identifier),
        "20240315T090000"
    );
}

#[test]
fn hyphenate_basics() {
    assert_eq!(slug_hyphenate("a  b__c"), "a-b-c");
    assert_eq!(slug_hyphenate("-a-"), "a");
    assert_eq!(slug_hyphenate("--"), "");
    assert_eq!(slug_hyphenate(""), "");
}

#[test]
fn put_equals_basics() {
    assert_eq!(slug_put_equals("a b"), "a=b");
    assert_eq!(slug_put_equals("a =="), "a");
    assert_eq!(slug_put_equals("-a"), "a");
    // Asymmetric by design: a trailing hyphen stays.
    assert_eq!(slug_put_equals("a-"), "a-");
}

#[test]
fn keyword_drops_separators() {
    assert_eq!(sluggify_keyword("Rust CLI-tools_v2=x"), "rustclitoolsv2x");
}

#[test]
fn title_and_signature_lowercase() {
    assert_eq!(sluggify_title("A =B= C"), "a-b-c");
    assert_eq!(sluggify_signature("Jane-Doe"), "janedoe");
}

#[test]
fn remove_dots() {
    assert_eq!(remove_dot_characters("a.b.c"), "abc");
    assert_eq!(remove_dot_characters("..."), "");
}

#[test]
fn trim_right_tokens_per_component() {
    assert_eq!(trim_right_token_characters("ab-=_@", Component::Title), "ab-");
    assert_eq!(trim_right_token_characters("ab-=_@", Component::Keyword), "ab");
    assert_eq!(trim_right_token_characters("ab", Component::Identifier), "ab");
}

#[test]
fn collapse_tokens_per_component() {
    assert_eq!(
        replace_consecutive_token_characters("a--b__c", Component::Title),
        "a--b_c"
    );
    assert_eq!(
        replace_consecutive_token_characters("a--b__c", Component::Keyword),
        "a-b_c"
    );
    assert_eq!(
        replace_consecutive_token_characters("x==y@@z", Component::Identifier),
        "x=y@z"
    );
}

#[test]
fn keep_only_ascii_replaces_with_spaces() {
    assert_eq!(slug_keep_only_ascii("h\u{e9}llo w\u{f6}rld"), "h llo w rld");
    assert_eq!(slug_keep_only_ascii("tab\there"), "tab here");
    assert_eq!(slug_keep_only_ascii("plain"), "plain");
}

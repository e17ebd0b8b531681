//! Deterministic note-filename construction.
//!
//! The heart of the crate is the slug pipeline: a pure function that turns a
//! freeform title, an optional signature, a keyword list and a timestamp
//! identifier into a single filesystem-safe filename following a fixed
//! grammar.  Every transformation is specified over sequences of characters
//! and proved against that specification.  Around it stand the note
//! assembly, the timestamp and journal-title formatting, and the pure
//! selection logic of the status-bar helpers.

mod laws;
mod note;
mod slug;
mod status;
mod text;

pub use slug::{
    remove_dot_characters, replace_consecutive_token_characters, slug_hyphenate, slug_put_equals,
    sluggify_and_apply_rules, sluggify_keyword, sluggify_signature, sluggify_title,
    trim_right_token_characters, valid_identifier, Component,
};
pub use note::{format_identifier, journal_note, journal_note_now, week_title, Note};
pub use laws::{
    lemma_filename_legal, lemma_fragment_legal, lemma_fragment_no_doubled_tokens,
    lemma_fragment_trailing, lemma_sluggify_idempotent,
};
pub use status::{
    battery_symbol, charge_text, glyph_row, ids_on_monitor, sorted_ids, volume_symbol,
    volume_text, workspace_glyph, workspace_glyphs,
};
pub use text::slug_keep_only_ascii;

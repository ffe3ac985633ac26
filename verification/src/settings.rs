//! The last-selection store: a single durable language value.
//!
//! The most recently used target language is kept in a slot of its own,
//! apart from the configuration record, because it changes far more often.
//! The stored text is the language's display name; reading accepts that
//! name, falls back to a small set of legacy two-letter codes, both
//! matched without regard to ASCII case, and yields the built-in default
//! on anything else, so that loading is total.

use vstd::prelude::*;

use crate::config::ReadOutcome;
use crate::language::LanguageCode;
use crate::strutil;

verus! {

/// The built-in default target language, used whenever no stored value
/// can be read.
pub open spec fn spec_default_language() -> LanguageCode {
    LanguageCode::English
}

/// The built-in default target language.
pub fn default_language() -> (l: LanguageCode)
    ensures
        l == spec_default_language(),
{
    LanguageCode::English
}

/// What the legacy two-letter codes stand for: the historical slot format
/// kept a bare code, in either ASCII case, for one of four languages.
pub open spec fn spec_from_legacy_code(s: Seq<char>) -> Option<LanguageCode> {
    if strutil::eq_ci(s, "UK"@) {
        Some(LanguageCode::Ukrainian)
    } else if strutil::eq_ci(s, "EN"@) {
        Some(LanguageCode::English)
    } else if strutil::eq_ci(s, "RU"@) {
        Some(LanguageCode::Russian)
    } else if strutil::eq_ci(s, "PT"@) {
        Some(LanguageCode::Portuguese)
    } else {
        None
    }
}

/// What reading the stored slot text yields: the trimmed text as a display
/// name first, a legacy two-letter code second, the default on anything
/// else.
pub open spec fn spec_parse_last_selection(s: Seq<char>) -> LanguageCode {
    let t = strutil::spec_trim(s);
    match LanguageCode::spec_from_name(t) {
        Some(l) => l,
        None => match spec_from_legacy_code(t) {
            Some(l) => l,
            None => spec_default_language(),
        },
    }
}

/// Decides a legacy two-letter code, ignoring ASCII case.
fn from_legacy_code(s: &str) -> (r: Option<LanguageCode>)
    ensures
        r == spec_from_legacy_code(s@),
{
    if strutil::str_eq_ci(s, "UK") {
        Some(LanguageCode::Ukrainian)
    } else if strutil::str_eq_ci(s, "EN") {
        Some(LanguageCode::English)
    } else if strutil::str_eq_ci(s, "RU") {
        Some(LanguageCode::Russian)
    } else if strutil::str_eq_ci(s, "PT") {
        Some(LanguageCode::Portuguese)
    } else {
        None
    }
}

/// Reads the stored slot text back into a language.
///
/// Total: every input yields a language, the default when nothing is
/// recognized, exactly as [`spec_parse_last_selection`] lays out.
pub fn parse_last_selection(s: &str) -> (l: LanguageCode)
    ensures
        l == spec_parse_last_selection(s@),
{
    let t = strutil::trim(s);
    match LanguageCode::from_name(t) {
        Some(l) => l,
        None => match from_legacy_code(t) {
            Some(l) => l,
            None => default_language(),
        },
    }
}

/// Renders a language for the slot: its display name.
pub fn render_last_selection(l: LanguageCode) -> (out: &'static str)
    ensures
        out@ == l.name_chars(),
{
    l.name()
}

/// Reading a rendered slot gives the language back.
pub proof fn lemma_last_selection_round_trip(l: LanguageCode)
    ensures
        spec_parse_last_selection(l.name_chars()) == l,
{
    crate::language::lemma_name_round_trip(l);
    lemma_name_chars_untrimmed(l);
}

/// A display name neither starts nor ends with blank characters, so
/// trimming leaves it unchanged.
proof fn lemma_name_chars_untrimmed(l: LanguageCode)
    ensures
        strutil::spec_trim(l.name_chars()) == l.name_chars(),
{
    reveal_strlit("English");
    reveal_strlit("French");
    reveal_strlit("German");
    reveal_strlit("Spanish");
    reveal_strlit("Italian");
    reveal_strlit("Polish");
    reveal_strlit("Portuguese");
    reveal_strlit("Russian");
    reveal_strlit("Ukrainian");
    reveal_strlit("Japanese");
    reveal_strlit("Chinese");
    reveal_strlit("Korean");
    let n = l.name_chars();
    assert(n.len() > 0);
    assert(!strutil::is_blank_char(n[0]));
    assert(!strutil::is_blank_char(n[n.len() - 1]));
}

/// Turns the outcome of reading the last-selection slot into a language.
///
/// Total, and quiet on first runs: an unavailable directory, a missing
/// file or an unreadable file yield the built-in default; stored text is
/// read by [`parse_last_selection`].
pub fn last_selection_step(outcome: ReadOutcome) -> (l: LanguageCode)
    ensures
        match outcome {
            ReadOutcome::PathUnavailable => l == spec_default_language(),
            ReadOutcome::Missing => l == spec_default_language(),
            ReadOutcome::ReadFailed => l == spec_default_language(),
            ReadOutcome::Content(text) => l == spec_parse_last_selection(text@),
        },
{
    match outcome {
        ReadOutcome::PathUnavailable => default_language(),
        ReadOutcome::Missing => default_language(),
        ReadOutcome::ReadFailed => default_language(),
        ReadOutcome::Content(text) => parse_last_selection(text.as_str()),
    }
}

} // verus!

//! The per-event selection step.
//!
//! On each clipboard event the caller detects a source language (or
//! nothing), loads the preference record and the last used target, and
//! asks [`resolve`] for the language to translate into.  The answer is
//! always constrained to the configured selectable set when that set is
//! non-empty, and the step says whether the last-used slot should be
//! persisted anew.

use vstd::prelude::*;

use crate::config::{contains_language, Config, ConfigView};
use crate::language::LanguageCode;
use crate::selection;
use crate::settings;

verus! {

/// The resolved target: the selection rule's candidate, constrained to
/// the selectable set by falling back to the last used language, then to
/// the first selectable entry, then to the built-in default.
pub open spec fn spec_resolve(
    source: Option<LanguageCode>,
    c: ConfigView,
    last: LanguageCode,
) -> LanguageCode {
    let candidate = selection::spec_choose_target(
        source,
        c.primary_language,
        c.secondary_language,
        last,
    );
    if c.all_target_languages.contains(candidate) {
        candidate
    } else if c.all_target_languages.contains(last) {
        last
    } else if c.all_target_languages.len() > 0 {
        c.all_target_languages[0]
    } else {
        settings::spec_default_language()
    }
}

/// Resolves the translation target for one clipboard event.
///
/// Total: every detection outcome and every record yield a target.  When
/// the selectable set is non-empty the target is one of its members; when
/// it was forced empty the target is the built-in default language, a
/// member of the built-in default set.  The second component says whether
/// the answer differs from the stored last-used value and so should be
/// persisted.
pub fn resolve(source: Option<LanguageCode>, config: &Config, last: LanguageCode) -> (r: (
    LanguageCode,
    bool,
))
    ensures
        r.0 == spec_resolve(source, config@, last),
        config@.all_target_languages.len() > 0 ==> config@.all_target_languages.contains(r.0),
        config@.all_target_languages.len() == 0 ==> r.0 == settings::spec_default_language()
            && crate::config::spec_default_targets().contains(r.0),
        r.1 == (r.0 != last),
{
    let candidate = selection::choose_target_language(
        source,
        config.primary_language,
        config.secondary_language,
        last,
    );
    let resolved: LanguageCode = if contains_language(&config.all_target_languages, candidate) {
        candidate
    } else if contains_language(&config.all_target_languages, last) {
        last
    } else if config.all_target_languages.len() > 0 {
        config.all_target_languages[0]
    } else {
        settings::default_language()
    };
    proof {
        if config@.all_target_languages.len() > 0 && !config@.all_target_languages.contains(
            spec_resolve(source, config@, last),
        ) {
            assert(config@.all_target_languages[0] == config@.all_target_languages.index(0));
        }
        if config@.all_target_languages.len() == 0 {
            assert(crate::config::spec_default_targets()[0] == LanguageCode::English);
        }
    }
    let changed = resolved != last;
    (resolved, changed)
}

/// The sample of a clipboard text handed to the language detector: at
/// most its first hundred characters, so that detection stays quick.
pub fn detection_sample<'a>(text: &'a str) -> (r: &'a str)
    ensures
        text@.len() <= 100 ==> r@ == text@,
        text@.len() > 100 ==> r@ == text@.subrange(0, 100),
{
    let len = text.unicode_len();
    if len <= 100 {
        proof {
            assert(text@.subrange(0, text@.len() as int) =~= text@);
        }
        text.substring_char(0, len)
    } else {
        text.substring_char(0, 100)
    }
}

} // verus!

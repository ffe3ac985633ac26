//! The target-language selection engine.
//!
//! A pure, total decision rule mapping the detected source language and the
//! user's preferences to the next translation target.

use vstd::prelude::*;

use crate::language::LanguageCode;

verus! {

/// The selection rule.
///
/// 1. When no source was detected, or the source is not the primary
///    language, the target is the primary language.
/// 2. When the source is the primary language and the last used target is a
///    meaningful recent choice (it differs from the primary language), the
///    target is that last used language.
/// 3. Otherwise the target is the secondary language, so that the
///    translation never degenerates to primary-to-primary.
pub open spec fn spec_choose_target(
    source: Option<LanguageCode>,
    primary: LanguageCode,
    secondary: LanguageCode,
    last: LanguageCode,
) -> LanguageCode {
    if source != Some(primary) {
        primary
    } else if last != primary {
        last
    } else {
        secondary
    }
}

/// Picks the next translation target from the detected source language and
/// the stored preferences.
///
/// Total and deterministic: every combination of inputs yields exactly one
/// of `primary_lang`, `secondary_lang` or `last_lang`, following the rule
/// spelled out by [`spec_choose_target`].
pub fn choose_target_language(
    source_lang: Option<LanguageCode>,
    primary_lang: LanguageCode,
    secondary_lang: LanguageCode,
    last_lang: LanguageCode,
) -> (target: LanguageCode)
    ensures
        target == spec_choose_target(source_lang, primary_lang, secondary_lang, last_lang),
        target == primary_lang || target == secondary_lang || target == last_lang,
        source_lang != Some(primary_lang) ==> target == primary_lang,
        source_lang == Some(primary_lang) && last_lang != primary_lang ==> target == last_lang,
        source_lang == Some(primary_lang) && last_lang == primary_lang ==> target
            == secondary_lang,
{
    let is_source_primary = match source_lang {
        Some(detected) => detected == primary_lang,
        None => false,
    };
    if !is_source_primary {
        primary_lang
    } else if last_lang != primary_lang {
        last_lang
    } else {
        secondary_lang
    }
}

} // verus!

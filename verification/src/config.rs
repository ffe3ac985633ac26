//! The durable preference record and its repair rules.
//!
//! [`Config`] holds the translation endpoint, the model identifier, the
//! primary and secondary languages and the ordered list of selectable
//! target languages.  Before a record becomes durable it is repaired so
//! that the selectable list is never empty and always holds the primary
//! and secondary languages.

use vstd::prelude::*;

use crate::language::LanguageCode;

verus! {

/// The mathematical value of a [`Config`].
#[verifier::ext_equal]
pub ghost struct ConfigView {
    pub api_url: Seq<char>,
    pub model_version: Seq<char>,
    pub primary_language: LanguageCode,
    pub secondary_language: LanguageCode,
    pub all_target_languages: Seq<LanguageCode>,
}

/// The durable preference record.
#[derive(Debug, Clone, PartialEq)]
pub struct Config {
    pub api_url: String,
    pub model_version: String,
    pub primary_language: LanguageCode,
    pub secondary_language: LanguageCode,
    pub all_target_languages: Vec<LanguageCode>,
}

impl View for Config {
    type V = ConfigView;

    open spec fn view(&self) -> ConfigView {
        ConfigView {
            api_url: self.api_url@,
            model_version: self.model_version@,
            primary_language: self.primary_language,
            secondary_language: self.secondary_language,
            all_target_languages: self.all_target_languages@,
        }
    }
}

/// The built-in default list of selectable target languages.
pub open spec fn spec_default_targets() -> Seq<LanguageCode> {
    seq![
        LanguageCode::English,
        LanguageCode::French,
        LanguageCode::Italian,
        LanguageCode::Polish,
    ]
}

/// The built-in default record used on first run and whenever a stored
/// record cannot be used.
pub open spec fn spec_default_config() -> ConfigView {
    ConfigView {
        api_url: "https://openrouter.ai/api/v1"@,
        model_version: "openai/gpt-4o"@,
        primary_language: LanguageCode::English,
        secondary_language: LanguageCode::French,
        all_target_languages: spec_default_targets(),
    }
}

/// Builds the built-in default list of selectable target languages.
pub fn default_target_languages() -> (v: Vec<LanguageCode>)
    ensures
        v@ == spec_default_targets(),
{
    let mut v: Vec<LanguageCode> = Vec::new();
    v.push(LanguageCode::English);
    v.push(LanguageCode::French);
    v.push(LanguageCode::Italian);
    v.push(LanguageCode::Polish);
    proof {
        assert(v@ =~= spec_default_targets());
    }
    v
}

impl Default for Config {
    /// The built-in default record.
    fn default() -> (c: Config)
        ensures
            c@ == spec_default_config(),
    {
        let c = Config {
            api_url: String::from_str("https://openrouter.ai/api/v1"),
            model_version: String::from_str("openai/gpt-4o"),
            primary_language: LanguageCode::English,
            secondary_language: LanguageCode::French,
            all_target_languages: default_target_languages(),
        };
        proof {
            assert(c@ =~= spec_default_config());
        }
        c
    }
}

/// Decides membership in an ordered language list.
pub fn contains_language(v: &Vec<LanguageCode>, l: LanguageCode) -> (b: bool)
    ensures
        b == v@.contains(l),
{
    let mut i: usize = 0;
    while i < v.len()
        invariant
            i <= v@.len(),
            forall|j: int| 0 <= j < i ==> v@[j] != l,
        decreases v@.len() - i,
    {
        if v[i] == l {
            return true;
        }
        i += 1;
    }
    false
}

/// Copies an ordered language list.
fn copy_targets(v: &Vec<LanguageCode>) -> (r: Vec<LanguageCode>)
    ensures
        r@ == v@,
{
    let mut r: Vec<LanguageCode> = Vec::new();
    let mut i: usize = 0;
    while i < v.len()
        invariant
            i <= v@.len(),
            r@ == v@.subrange(0, i as int),
        decreases v@.len() - i,
    {
        r.push(v[i]);
        i += 1;
        proof {
            assert(r@ =~= v@.subrange(0, i as int));
        }
    }
    proof {
        assert(r@ =~= v@);
    }
    r
}

/// The selectable list after save-time repair: the default list replaces
/// an empty one, and the primary and secondary languages are appended when
/// absent.
pub open spec fn spec_repair_targets(c: ConfigView) -> Seq<LanguageCode> {
    let base = if c.all_target_languages.len() == 0 {
        spec_default_targets()
    } else {
        c.all_target_languages
    };
    let with_primary = if base.contains(c.primary_language) {
        base
    } else {
        base.push(c.primary_language)
    };
    if with_primary.contains(c.secondary_language) {
        with_primary
    } else {
        with_primary.push(c.secondary_language)
    }
}

/// The record that save-time repair makes durable: every field unchanged
/// except the selectable list, which is repaired.
pub open spec fn spec_repair_for_save(c: ConfigView) -> ConfigView {
    ConfigView { all_target_languages: spec_repair_targets(c), ..c }
}

proof fn lemma_push_keeps_and_adds(s: Seq<LanguageCode>, x: LanguageCode)
    ensures
        s.push(x).contains(x),
        forall|y: LanguageCode| s.contains(y) ==> s.push(x).contains(y),
{
    assert(s.push(x)[s.len() as int] == x);
    assert forall|y: LanguageCode| s.contains(y) implies s.push(x).contains(y) by {
        let i = choose|i: int| 0 <= i < s.len() && s[i] == y;
        assert(s.push(x)[i] == y);
    }
}

/// Save-time repair of a working copy, as specified by
/// [`spec_repair_for_save`]: afterwards the selectable list is non-empty
/// and holds both the primary and the secondary language.
pub fn repair_for_save(c: &Config) -> (r: Config)
    ensures
        r@ == spec_repair_for_save(c@),
        r@.all_target_languages.len() > 0,
        r@.all_target_languages.contains(r@.primary_language),
        r@.all_target_languages.contains(r@.secondary_language),
{
    let mut targets: Vec<LanguageCode> = if c.all_target_languages.len() == 0 {
        default_target_languages()
    } else {
        copy_targets(&c.all_target_languages)
    };
    proof {
        lemma_push_keeps_and_adds(targets@, c@.primary_language);
    }
    if !contains_language(&targets, c.primary_language) {
        targets.push(c.primary_language);
    }
    proof {
        lemma_push_keeps_and_adds(targets@, c@.secondary_language);
    }
    if !contains_language(&targets, c.secondary_language) {
        targets.push(c.secondary_language);
    }
    let r = Config {
        api_url: c.api_url.clone(),
        model_version: c.model_version.clone(),
        primary_language: c.primary_language,
        secondary_language: c.secondary_language,
        all_target_languages: targets,
    };
    proof {
        assert(r@ =~= spec_repair_for_save(c@));
    }
    r
}

/// Save-time repair applied twice gives the same record as applied once:
/// the repaired record is already non-empty and holds both languages, so
/// a second repair changes nothing.
pub proof fn lemma_repair_for_save_idempotent(c: ConfigView)
    ensures
        spec_repair_for_save(spec_repair_for_save(c)) == spec_repair_for_save(c),
{
    let r = spec_repair_for_save(c);
    lemma_push_keeps_and_adds(c.all_target_languages, c.primary_language);
    lemma_push_keeps_and_adds(spec_default_targets(), c.primary_language);
    let base = if c.all_target_languages.len() == 0 {
        spec_default_targets()
    } else {
        c.all_target_languages
    };
    let with_primary = if base.contains(c.primary_language) {
        base
    } else {
        base.push(c.primary_language)
    };
    lemma_push_keeps_and_adds(base, c.primary_language);
    lemma_push_keeps_and_adds(with_primary, c.secondary_language);
    assert(spec_repair_for_save(r) =~= r);
}

/// The selectable list after load-time repair: only an empty list is
/// corrected, to the default list; membership violations are reported,
/// not corrected.
pub open spec fn spec_repair_for_load(c: ConfigView) -> ConfigView {
    ConfigView {
        all_target_languages: if c.all_target_languages.len() == 0 {
            spec_default_targets()
        } else {
            c.all_target_languages
        },
        ..c
    }
}

/// Load-time repair, as specified by [`spec_repair_for_load`].
pub fn repair_for_load(c: Config) -> (r: Config)
    ensures
        r@ == spec_repair_for_load(c@),
        r@.all_target_languages.len() > 0,
{
    let mut c = c;
    if c.all_target_languages.len() == 0 {
        c.all_target_languages = default_target_languages();
    }
    proof {
        assert(c@ =~= spec_repair_for_load(c@));
    }
    c
}


/// How an attempt to read a stored document ended, as the caller saw it:
/// the platform directory could not be determined, the file was absent,
/// the file could not be read, or its text was read in full.
pub enum ReadOutcome {
    PathUnavailable,
    Missing,
    ReadFailed,
    Content(String),
}

/// What the caller should do to the disk after a load: nothing, persist
/// the defaults (first run), or move the unreadable file aside to a
/// backup and then persist the defaults.
#[derive(Clone, Copy, Debug, PartialEq, Eq, Structural)]
pub enum LoadAction {
    DoNothing,
    WriteDefaults,
    BackupThenWriteDefaults,
}

/// A loaded record together with what the caller should do to the disk
/// and which membership warnings hold of the record.
pub struct LoadedConfig {
    pub config: Config,
    pub action: LoadAction,
    pub primary_missing: bool,
    pub secondary_missing: bool,
}

/// Turns the outcome of reading the configuration file into a usable
/// record.
///
/// Loading never fails: an unavailable directory, a missing file or an
/// unreadable file yield the built-in defaults, and unparseable text
/// yields the defaults while asking the caller to move the old file
/// aside first, so no user data is silently destroyed.  A parsed record
/// is repaired only in its selectable list (an empty list becomes the
/// default list); a primary or secondary language absent from the list
/// is reported, not corrected.
pub fn load_step(outcome: ReadOutcome) -> (r: LoadedConfig)
    ensures
        match outcome {
            ReadOutcome::PathUnavailable => r.config@ == spec_default_config() && r.action
                == LoadAction::DoNothing,
            ReadOutcome::Missing => r.config@ == spec_default_config() && r.action
                == LoadAction::WriteDefaults,
            ReadOutcome::ReadFailed => r.config@ == spec_default_config() && r.action
                == LoadAction::DoNothing,
            ReadOutcome::Content(text) => match crate::codec::spec_parse_config(text@) {
                Some(c) => r.config@ == spec_repair_for_load(c) && r.action
                    == LoadAction::DoNothing,
                None => r.config@ == spec_default_config() && r.action
                    == LoadAction::BackupThenWriteDefaults,
            },
        },
        r.config@.all_target_languages.len() > 0,
        r.primary_missing == !r.config@.all_target_languages.contains(r.config@.primary_language),
        r.secondary_missing == !r.config@.all_target_languages.contains(
            r.config@.secondary_language,
        ),
{
    let (config, action) = match outcome {
        ReadOutcome::PathUnavailable => (Config::default(), LoadAction::DoNothing),
        ReadOutcome::Missing => (Config::default(), LoadAction::WriteDefaults),
        ReadOutcome::ReadFailed => (Config::default(), LoadAction::DoNothing),
        ReadOutcome::Content(text) => match crate::codec::parse_config(text.as_str()) {
            Some(c) => (repair_for_load(c), LoadAction::DoNothing),
            None => (Config::default(), LoadAction::BackupThenWriteDefaults),
        },
    };
    proof {
        assert(spec_default_targets().contains(LanguageCode::English)) by {
            assert(spec_default_targets()[0] == LanguageCode::English);
        }
        assert(spec_default_targets().contains(LanguageCode::French)) by {
            assert(spec_default_targets()[1] == LanguageCode::French);
        }
    }
    let primary_missing = !contains_language(&config.all_target_languages, config.primary_language);
    let secondary_missing = !contains_language(
        &config.all_target_languages,
        config.secondary_language,
    );
    LoadedConfig { config, action, primary_missing, secondary_missing }
}

/// Repairs a working copy of a record and renders it for saving.
///
/// Never fails: the document format escapes what it must, so every
/// record can be carried.  The first component is the record that
/// becomes durable (the caller keeps it) and the second is the document
/// text to write, via a temporary file and an atomic rename.
pub fn prepare_save(c: &Config) -> (r: (Config, String))
    ensures
        r.0@ == spec_repair_for_save(c@),
        r.1@ == crate::codec::spec_serialize_config(spec_repair_for_save(c@)),
{
    let repaired = repair_for_save(c);
    let doc = crate::codec::render_config(&repaired);
    (repaired, doc)
}

} // verus!

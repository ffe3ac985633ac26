//! Language identifiers.
//!
//! [`LanguageCode`] is the closed set of languages the preference store and
//! the selection engine work over, with canonical conversions to and from
//! the upper-case ISO 639-1 code and the English display name.
//! [`TargetLanguage`] is the narrower historical set of translation targets
//! with its own short codes and prompt labels.

use vstd::prelude::*;

use crate::strutil;

verus! {

/// A language the library can hold in its preference records.
///
/// Equality is by identity; values are immutable.
#[derive(Clone, Copy, Debug, PartialEq, Eq, Structural)]
pub enum LanguageCode {
    English,
    French,
    German,
    Spanish,
    Italian,
    Polish,
    Portuguese,
    Russian,
    Ukrainian,
    Japanese,
    Chinese,
    Korean,
}

impl LanguageCode {
    /// The upper-case ISO 639-1 code, as a character sequence.
    pub open spec fn code_chars(self) -> Seq<char> {
        match self {
            LanguageCode::English => "EN"@,
            LanguageCode::French => "FR"@,
            LanguageCode::German => "DE"@,
            LanguageCode::Spanish => "ES"@,
            LanguageCode::Italian => "IT"@,
            LanguageCode::Polish => "PL"@,
            LanguageCode::Portuguese => "PT"@,
            LanguageCode::Russian => "RU"@,
            LanguageCode::Ukrainian => "UK"@,
            LanguageCode::Japanese => "JA"@,
            LanguageCode::Chinese => "ZH"@,
            LanguageCode::Korean => "KO"@,
        }
    }

    /// The English display name, as a character sequence.
    pub open spec fn name_chars(self) -> Seq<char> {
        match self {
            LanguageCode::English => "English"@,
            LanguageCode::French => "French"@,
            LanguageCode::German => "German"@,
            LanguageCode::Spanish => "Spanish"@,
            LanguageCode::Italian => "Italian"@,
            LanguageCode::Polish => "Polish"@,
            LanguageCode::Portuguese => "Portuguese"@,
            LanguageCode::Russian => "Russian"@,
            LanguageCode::Ukrainian => "Ukrainian"@,
            LanguageCode::Japanese => "Japanese"@,
            LanguageCode::Chinese => "Chinese"@,
            LanguageCode::Korean => "Korean"@,
        }
    }

    /// The upper-case ISO 639-1 code.
    pub fn iso_code(&self) -> (r: &'static str)
        ensures
            r@ == self.code_chars(),
    {
        match self {
            LanguageCode::English => "EN",
            LanguageCode::French => "FR",
            LanguageCode::German => "DE",
            LanguageCode::Spanish => "ES",
            LanguageCode::Italian => "IT",
            LanguageCode::Polish => "PL",
            LanguageCode::Portuguese => "PT",
            LanguageCode::Russian => "RU",
            LanguageCode::Ukrainian => "UK",
            LanguageCode::Japanese => "JA",
            LanguageCode::Chinese => "ZH",
            LanguageCode::Korean => "KO",
        }
    }

    /// The English display name.
    pub fn name(&self) -> (r: &'static str)
        ensures
            r@ == self.name_chars(),
    {
        match self {
            LanguageCode::English => "English",
            LanguageCode::French => "French",
            LanguageCode::German => "German",
            LanguageCode::Spanish => "Spanish",
            LanguageCode::Italian => "Italian",
            LanguageCode::Polish => "Polish",
            LanguageCode::Portuguese => "Portuguese",
            LanguageCode::Russian => "Russian",
            LanguageCode::Ukrainian => "Ukrainian",
            LanguageCode::Japanese => "Japanese",
            LanguageCode::Chinese => "Chinese",
            LanguageCode::Korean => "Korean",
        }
    }

    /// What parsing an ISO 639-1 code yields; the match ignores ASCII case.
    pub open spec fn spec_from_iso_code(s: Seq<char>) -> Option<LanguageCode> {
        if strutil::eq_ci(s, "EN"@) {
            Some(LanguageCode::English)
        } else if strutil::eq_ci(s, "FR"@) {
            Some(LanguageCode::French)
        } else if strutil::eq_ci(s, "DE"@) {
            Some(LanguageCode::German)
        } else if strutil::eq_ci(s, "ES"@) {
            Some(LanguageCode::Spanish)
        } else if strutil::eq_ci(s, "IT"@) {
            Some(LanguageCode::Italian)
        } else if strutil::eq_ci(s, "PL"@) {
            Some(LanguageCode::Polish)
        } else if strutil::eq_ci(s, "PT"@) {
            Some(LanguageCode::Portuguese)
        } else if strutil::eq_ci(s, "RU"@) {
            Some(LanguageCode::Russian)
        } else if strutil::eq_ci(s, "UK"@) {
            Some(LanguageCode::Ukrainian)
        } else if strutil::eq_ci(s, "JA"@) {
            Some(LanguageCode::Japanese)
        } else if strutil::eq_ci(s, "ZH"@) {
            Some(LanguageCode::Chinese)
        } else if strutil::eq_ci(s, "KO"@) {
            Some(LanguageCode::Korean)
        } else {
            None
        }
    }

    /// What parsing an English display name yields; the match ignores ASCII case.
    pub open spec fn spec_from_name(s: Seq<char>) -> Option<LanguageCode> {
        if strutil::eq_ci(s, "English"@) {
            Some(LanguageCode::English)
        } else if strutil::eq_ci(s, "French"@) {
            Some(LanguageCode::French)
        } else if strutil::eq_ci(s, "German"@) {
            Some(LanguageCode::German)
        } else if strutil::eq_ci(s, "Spanish"@) {
            Some(LanguageCode::Spanish)
        } else if strutil::eq_ci(s, "Italian"@) {
            Some(LanguageCode::Italian)
        } else if strutil::eq_ci(s, "Polish"@) {
            Some(LanguageCode::Polish)
        } else if strutil::eq_ci(s, "Portuguese"@) {
            Some(LanguageCode::Portuguese)
        } else if strutil::eq_ci(s, "Russian"@) {
            Some(LanguageCode::Russian)
        } else if strutil::eq_ci(s, "Ukrainian"@) {
            Some(LanguageCode::Ukrainian)
        } else if strutil::eq_ci(s, "Japanese"@) {
            Some(LanguageCode::Japanese)
        } else if strutil::eq_ci(s, "Chinese"@) {
            Some(LanguageCode::Chinese)
        } else if strutil::eq_ci(s, "Korean"@) {
            Some(LanguageCode::Korean)
        } else {
            None
        }
    }

    /// Either reading, code first and display name second, for fields that
    /// historically held one or the other.
    pub open spec fn spec_from_token(s: Seq<char>) -> Option<LanguageCode> {
        match LanguageCode::spec_from_iso_code(s) {
            Some(l) => Some(l),
            None => LanguageCode::spec_from_name(s),
        }
    }

    /// Parses an ISO 639-1 code, ignoring ASCII case.
    pub fn from_iso_code(s: &str) -> (r: Option<LanguageCode>)
        ensures
            r == LanguageCode::spec_from_iso_code(s@),
    {
        if strutil::str_eq_ci(s, "EN") {
            Some(LanguageCode::English)
        } else if strutil::str_eq_ci(s, "FR") {
            Some(LanguageCode::French)
        } else if strutil::str_eq_ci(s, "DE") {
            Some(LanguageCode::German)
        } else if strutil::str_eq_ci(s, "ES") {
            Some(LanguageCode::Spanish)
        } else if strutil::str_eq_ci(s, "IT") {
            Some(LanguageCode::Italian)
        } else if strutil::str_eq_ci(s, "PL") {
            Some(LanguageCode::Polish)
        } else if strutil::str_eq_ci(s, "PT") {
            Some(LanguageCode::Portuguese)
        } else if strutil::str_eq_ci(s, "RU") {
            Some(LanguageCode::Russian)
        } else if strutil::str_eq_ci(s, "UK") {
            Some(LanguageCode::Ukrainian)
        } else if strutil::str_eq_ci(s, "JA") {
            Some(LanguageCode::Japanese)
        } else if strutil::str_eq_ci(s, "ZH") {
            Some(LanguageCode::Chinese)
        } else if strutil::str_eq_ci(s, "KO") {
            Some(LanguageCode::Korean)
        } else {
            None
        }
    }

    /// Parses an English display name, ignoring ASCII case.
    pub fn from_name(s: &str) -> (r: Option<LanguageCode>)
        ensures
            r == LanguageCode::spec_from_name(s@),
    {
        if strutil::str_eq_ci(s, "English") {
            Some(LanguageCode::English)
        } else if strutil::str_eq_ci(s, "French") {
            Some(LanguageCode::French)
        } else if strutil::str_eq_ci(s, "German") {
            Some(LanguageCode::German)
        } else if strutil::str_eq_ci(s, "Spanish") {
            Some(LanguageCode::Spanish)
        } else if strutil::str_eq_ci(s, "Italian") {
            Some(LanguageCode::Italian)
        } else if strutil::str_eq_ci(s, "Polish") {
            Some(LanguageCode::Polish)
        } else if strutil::str_eq_ci(s, "Portuguese") {
            Some(LanguageCode::Portuguese)
        } else if strutil::str_eq_ci(s, "Russian") {
            Some(LanguageCode::Russian)
        } else if strutil::str_eq_ci(s, "Ukrainian") {
            Some(LanguageCode::Ukrainian)
        } else if strutil::str_eq_ci(s, "Japanese") {
            Some(LanguageCode::Japanese)
        } else if strutil::str_eq_ci(s, "Chinese") {
            Some(LanguageCode::Chinese)
        } else if strutil::str_eq_ci(s, "Korean") {
            Some(LanguageCode::Korean)
        } else {
            None
        }
    }

    /// Parses either form: ISO code first, display name second.
    pub fn from_token(s: &str) -> (r: Option<LanguageCode>)
        ensures
            r == LanguageCode::spec_from_token(s@),
    {
        match LanguageCode::from_iso_code(s) {
            Some(l) => Some(l),
            None => LanguageCode::from_name(s),
        }
    }
}

/// Parsing a language's own code gives that language back.
pub proof fn lemma_code_round_trip(l: LanguageCode)
    ensures
        LanguageCode::spec_from_iso_code(l.code_chars()) == Some(l),
        LanguageCode::spec_from_token(l.code_chars()) == Some(l),
{
    broadcast use vstd::string::group_string_axioms;

    reveal_strlit("EN");
    reveal_strlit("FR");
    reveal_strlit("DE");
    reveal_strlit("ES");
    reveal_strlit("IT");
    reveal_strlit("PL");
    reveal_strlit("PT");
    reveal_strlit("RU");
    reveal_strlit("UK");
    reveal_strlit("JA");
    reveal_strlit("ZH");
    reveal_strlit("KO");
    assert("EN"@.len() == 2 && "EN"@[0] == 'E' && "EN"@[1] == 'N');
    assert("FR"@.len() == 2 && "FR"@[0] == 'F' && "FR"@[1] == 'R');
    assert("DE"@.len() == 2 && "DE"@[0] == 'D' && "DE"@[1] == 'E');
    assert("ES"@.len() == 2 && "ES"@[0] == 'E' && "ES"@[1] == 'S');
    assert("IT"@.len() == 2 && "IT"@[0] == 'I' && "IT"@[1] == 'T');
    assert("PL"@.len() == 2 && "PL"@[0] == 'P' && "PL"@[1] == 'L');
    assert("PT"@.len() == 2 && "PT"@[0] == 'P' && "PT"@[1] == 'T');
    assert("RU"@.len() == 2 && "RU"@[0] == 'R' && "RU"@[1] == 'U');
    assert("UK"@.len() == 2 && "UK"@[0] == 'U' && "UK"@[1] == 'K');
    assert("JA"@.len() == 2 && "JA"@[0] == 'J' && "JA"@[1] == 'A');
    assert("ZH"@.len() == 2 && "ZH"@[0] == 'Z' && "ZH"@[1] == 'H');
    assert("KO"@.len() == 2 && "KO"@[0] == 'K' && "KO"@[1] == 'O');
}

/// Parsing a language's own display name gives that language back.
pub proof fn lemma_name_round_trip(l: LanguageCode)
    ensures
        LanguageCode::spec_from_name(l.name_chars()) == Some(l),
{
    broadcast use vstd::string::group_string_axioms;

    reveal_strlit("English");
    reveal_strlit("French");
    reveal_strlit("German");
    reveal_strlit("Spanish");
    reveal_strlit("Italian");
    reveal_strlit("Polish");
    reveal_strlit("Portuguese");
    reveal_strlit("Russian");
    reveal_strlit("Ukrainian");
    reveal_strlit("Japanese");
    reveal_strlit("Chinese");
    reveal_strlit("Korean");
    assert("English"@.len() == 7 && "English"@[0] == 'E' && "English"@[1] == 'n' && "English"@[2] == 'g');
    assert("French"@.len() == 6 && "French"@[0] == 'F' && "French"@[1] == 'r' && "French"@[2] == 'e');
    assert("German"@.len() == 6 && "German"@[0] == 'G' && "German"@[1] == 'e' && "German"@[2] == 'r');
    assert("Spanish"@.len() == 7 && "Spanish"@[0] == 'S' && "Spanish"@[1] == 'p' && "Spanish"@[2] == 'a');
    assert("Italian"@.len() == 7 && "Italian"@[0] == 'I' && "Italian"@[1] == 't' && "Italian"@[2] == 'a');
    assert("Polish"@.len() == 6 && "Polish"@[0] == 'P' && "Polish"@[1] == 'o' && "Polish"@[2] == 'l');
    assert("Portuguese"@.len() == 10 && "Portuguese"@[0] == 'P' && "Portuguese"@[1] == 'o' && "Portuguese"@[2] == 'r');
    assert("Russian"@.len() == 7 && "Russian"@[0] == 'R' && "Russian"@[1] == 'u' && "Russian"@[2] == 's');
    assert("Ukrainian"@.len() == 9 && "Ukrainian"@[0] == 'U' && "Ukrainian"@[1] == 'k' && "Ukrainian"@[2] == 'r');
    assert("Japanese"@.len() == 8 && "Japanese"@[0] == 'J' && "Japanese"@[1] == 'a' && "Japanese"@[2] == 'p');
    assert("Chinese"@.len() == 7 && "Chinese"@[0] == 'C' && "Chinese"@[1] == 'h' && "Chinese"@[2] == 'i');
    assert("Korean"@.len() == 6 && "Korean"@[0] == 'K' && "Korean"@[1] == 'o' && "Korean"@[2] == 'r');
}


/// The historical closed set of translation targets, with its own short
/// codes and the labels used when asking the provider for a translation.
#[derive(Clone, Copy, Debug, PartialEq, Eq, Structural)]
pub enum TargetLanguage {
    Portuguese,
    English,
    Ukrainian,
    Russian,
}

impl TargetLanguage {
    /// The label naming this target in a translation request.
    pub fn as_str(&self) -> (r: &'static str)
        ensures
            r@ == self.label_chars(),
    {
        match self {
            TargetLanguage::Portuguese => "European Portuguese",
            TargetLanguage::English => "English",
            TargetLanguage::Ukrainian => "Ukrainian",
            TargetLanguage::Russian => "Russian",
        }
    }

    /// The label naming this target in a translation request.
    pub open spec fn label_chars(self) -> Seq<char> {
        match self {
            TargetLanguage::Portuguese => "European Portuguese"@,
            TargetLanguage::English => "English"@,
            TargetLanguage::Ukrainian => "Ukrainian"@,
            TargetLanguage::Russian => "Russian"@,
        }
    }

    /// The two-letter short code of this target.
    pub fn code(&self) -> (r: &'static str)
        ensures
            r@ == self.short_code_chars(),
    {
        match self {
            TargetLanguage::Portuguese => "PT",
            TargetLanguage::English => "EN",
            TargetLanguage::Ukrainian => "UK",
            TargetLanguage::Russian => "RU",
        }
    }

    /// The two-letter short code of this target.
    pub open spec fn short_code_chars(self) -> Seq<char> {
        match self {
            TargetLanguage::Portuguese => "PT"@,
            TargetLanguage::English => "EN"@,
            TargetLanguage::Ukrainian => "UK"@,
            TargetLanguage::Russian => "RU"@,
        }
    }

    /// What parsing a short code yields.
    pub open spec fn spec_from_code(s: Seq<char>) -> Option<TargetLanguage> {
        if s == "PT"@ {
            Some(TargetLanguage::Portuguese)
        } else if s == "EN"@ {
            Some(TargetLanguage::English)
        } else if s == "UK"@ {
            Some(TargetLanguage::Ukrainian)
        } else if s == "RU"@ {
            Some(TargetLanguage::Russian)
        } else {
            None
        }
    }

    /// Parses a two-letter short code back into a target.
    pub fn from_code(code: &str) -> (r: Option<TargetLanguage>)
        ensures
            r == TargetLanguage::spec_from_code(code@),
    {
        if strutil::str_eq(code, "PT") {
            Some(TargetLanguage::Portuguese)
        } else if strutil::str_eq(code, "EN") {
            Some(TargetLanguage::English)
        } else if strutil::str_eq(code, "UK") {
            Some(TargetLanguage::Ukrainian)
        } else if strutil::str_eq(code, "RU") {
            Some(TargetLanguage::Russian)
        } else {
            None
        }
    }
}

} // verus!

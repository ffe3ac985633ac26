//! The configuration document format.
//!
//! A record is stored as a small TOML-like text document, one `key = value`
//! line per field: free text and language codes between double quotes, the
//! selectable-language list between square brackets.  Backslashes, double
//! quotes and line feeds in free text are escaped, so the format carries
//! every record.  [`render_config`] writes the document and
//! [`parse_config`] reads it back; both are fully specified, and parsing a
//! rendered document is proved to give the record back, with no condition
//! on the record (see [`lemma_render_parse_round_trip`]).

use vstd::prelude::*;

use crate::config::{spec_default_targets, spec_repair_for_load, spec_repair_for_save, Config,
    ConfigView};
use crate::language::LanguageCode;

verus! {

// ---------------------------------------------------------------------------
// The document grammar, as specification functions.
// ---------------------------------------------------------------------------

/// `s` wrapped in double quotes.
pub open spec fn spec_quote(s: Seq<char>) -> Seq<char> {
    "\""@ + s + "\""@
}

/// How one character stands inside a double-quoted value: backslash,
/// double quote and line feed are escaped, anything else stands as is.
pub open spec fn spec_escape_char(c: char) -> Seq<char> {
    if c == '\\' {
        seq!['\\', '\\']
    } else if c == '"' {
        seq!['\\', '"']
    } else if c == '\n' {
        seq!['\\', 'n']
    } else {
        seq![c]
    }
}

/// Text as it stands inside a double-quoted value, character by
/// character.  The escaped form holds no bare double quote and no line
/// feed, so any text can be carried.
pub open spec fn spec_escape(s: Seq<char>) -> Seq<char>
    decreases s.len(),
{
    if s.len() == 0 {
        Seq::empty()
    } else {
        spec_escape_char(s[0]) + spec_escape(s.subrange(1, s.len() as int))
    }
}

/// What reading the inside of a double-quoted value yields: escapes are
/// folded back, a bare double quote, a dangling backslash or an unknown
/// escape reject the value.
pub open spec fn spec_unescape(s: Seq<char>) -> Option<Seq<char>>
    decreases s.len(),
{
    if s.len() == 0 {
        Some(Seq::empty())
    } else if s[0] == '"' {
        None
    } else if s[0] == '\\' {
        if s.len() < 2 {
            None
        } else {
            let rest = spec_unescape(s.subrange(2, s.len() as int));
            if s[1] == '\\' {
                match rest {
                    Some(t) => Some(seq!['\\'] + t),
                    None => None,
                }
            } else if s[1] == '"' {
                match rest {
                    Some(t) => Some(seq!['"'] + t),
                    None => None,
                }
            } else if s[1] == 'n' {
                match rest {
                    Some(t) => Some(seq!['\n'] + t),
                    None => None,
                }
            } else {
                None
            }
        }
    } else {
        match spec_unescape(s.subrange(1, s.len() as int)) {
            Some(t) => Some(seq![s[0]] + t),
            None => None,
        }
    }
}

/// `s` begins with `p`.
pub open spec fn spec_starts_with(s: Seq<char>, p: Seq<char>) -> bool {
    s.len() >= p.len() && s.subrange(0, p.len() as int) == p
}

/// `s` with a leading `p` removed.
pub open spec fn spec_after(s: Seq<char>, p: Seq<char>) -> Seq<char> {
    s.subrange(p.len() as int, s.len() as int)
}

/// The index of the first occurrence of `c` in `s` (meaningful when `s`
/// contains `c`).
pub open spec fn spec_find(s: Seq<char>, c: char) -> int
    decreases s.len(),
{
    if s.len() == 0 {
        0
    } else if s[0] == c {
        0
    } else {
        1 + spec_find(s.subrange(1, s.len() as int), c)
    }
}

/// What reading a double-quoted value yields: the text between the two
/// boundary quotes, with its escapes folded back.
pub open spec fn spec_parse_quoted(v: Seq<char>) -> Option<Seq<char>> {
    if v.len() >= 2 && v[0] == '"' && v[v.len() - 1] == '"' {
        spec_unescape(v.subrange(1, v.len() - 1))
    } else {
        None
    }
}

/// What reading a double-quoted language field yields: an ISO code or a
/// display name between quotes.
pub open spec fn spec_parse_lang(v: Seq<char>) -> Option<LanguageCode> {
    match spec_parse_quoted(v) {
        Some(t) => LanguageCode::spec_from_token(t),
        None => None,
    }
}

/// What reading the comma-separated items of a language list yields.
pub open spec fn spec_parse_items(s: Seq<char>) -> Option<Seq<LanguageCode>>
    decreases s.len(),
{
    if s.len() == 0 {
        Some(Seq::empty())
    } else if s[0] != '"' {
        None
    } else {
        let tail = s.subrange(1, s.len() as int);
        if !tail.contains('"') {
            None
        } else if !(0 <= spec_find(tail, '"') < tail.len()) {
            None
        } else {
            let j = spec_find(tail, '"');
            let token = tail.subrange(0, j);
            match LanguageCode::spec_from_token(token) {
                None => None,
                Some(l) => {
                    let rest = tail.subrange(j + 1, tail.len() as int);
                    if rest.len() == 0 {
                        Some(seq![l])
                    } else if spec_starts_with(rest, ", "@) {
                        match spec_parse_items(spec_after(rest, ", "@)) {
                            None => None,
                            Some(ls) => Some(seq![l] + ls),
                        }
                    } else {
                        None
                    }
                },
            }
        }
    }
}

/// What reading a bracketed language list yields.
pub open spec fn spec_parse_list(v: Seq<char>) -> Option<Seq<LanguageCode>> {
    if v.len() >= 2 && v[0] == '[' && v[v.len() - 1] == ']' {
        spec_parse_items(v.subrange(1, v.len() - 1))
    } else {
        None
    }
}

/// The fields collected so far while reading a document.
pub ghost struct AccView {
    pub api_url: Option<Seq<char>>,
    pub model_version: Option<Seq<char>>,
    pub primary_language: Option<LanguageCode>,
    pub secondary_language: Option<LanguageCode>,
    pub all_target_languages: Option<Seq<LanguageCode>>,
}

/// No field collected yet.
pub open spec fn spec_empty_acc() -> AccView {
    AccView {
        api_url: None,
        model_version: None,
        primary_language: None,
        secondary_language: None,
        all_target_languages: None,
    }
}

/// What one document line contributes: a blank line nothing, a known
/// `key = value` line its field (rejecting a second occurrence of the same
/// key), anything else an error.
pub open spec fn spec_apply_line(line: Seq<char>, acc: AccView) -> Option<AccView> {
    if line.len() == 0 {
        Some(acc)
    } else if spec_starts_with(line, "api_url = "@) {
        match spec_parse_quoted(spec_after(line, "api_url = "@)) {
            Some(v) => if acc.api_url is Some {
                None
            } else {
                Some(AccView { api_url: Some(v), ..acc })
            },
            None => None,
        }
    } else if spec_starts_with(line, "model_version = "@) {
        match spec_parse_quoted(spec_after(line, "model_version = "@)) {
            Some(v) => if acc.model_version is Some {
                None
            } else {
                Some(AccView { model_version: Some(v), ..acc })
            },
            None => None,
        }
    } else if spec_starts_with(line, "primary_language = "@) {
        match spec_parse_lang(spec_after(line, "primary_language = "@)) {
            Some(l) => if acc.primary_language is Some {
                None
            } else {
                Some(AccView { primary_language: Some(l), ..acc })
            },
            None => None,
        }
    } else if spec_starts_with(line, "secondary_language = "@) {
        match spec_parse_lang(spec_after(line, "secondary_language = "@)) {
            Some(l) => if acc.secondary_language is Some {
                None
            } else {
                Some(AccView { secondary_language: Some(l), ..acc })
            },
            None => None,
        }
    } else if spec_starts_with(line, "all_target_languages = "@) {
        match spec_parse_list(spec_after(line, "all_target_languages = "@)) {
            Some(ls) => if acc.all_target_languages is Some {
                None
            } else {
                Some(AccView { all_target_languages: Some(ls), ..acc })
            },
            None => None,
        }
    } else {
        None
    }
}

/// What reading a whole document yields, line by line.
pub open spec fn spec_parse_doc(s: Seq<char>, acc: AccView) -> Option<AccView>
    decreases s.len(),
{
    if s.contains('\n') && 0 <= spec_find(s, '\n') < s.len() {
        let i = spec_find(s, '\n');
        match spec_apply_line(s.subrange(0, i), acc) {
            None => None,
            Some(a) => spec_parse_doc(s.subrange(i + 1, s.len() as int), a),
        }
    } else {
        spec_apply_line(s, acc)
    }
}

/// The record the collected fields make: the four scalar fields are
/// required, a missing language list falls back to the built-in default.
pub open spec fn spec_finish(acc: AccView) -> Option<ConfigView> {
    match (acc.api_url, acc.model_version, acc.primary_language, acc.secondary_language) {
        (Some(u), Some(m), Some(p), Some(s)) => Some(
            ConfigView {
                api_url: u,
                model_version: m,
                primary_language: p,
                secondary_language: s,
                all_target_languages: match acc.all_target_languages {
                    Some(ts) => ts,
                    None => spec_default_targets(),
                },
            },
        ),
        _ => None,
    }
}

/// What parsing a document yields.
pub open spec fn spec_parse_config(s: Seq<char>) -> Option<ConfigView> {
    match spec_parse_doc(s, spec_empty_acc()) {
        None => None,
        Some(acc) => spec_finish(acc),
    }
}

// ---------------------------------------------------------------------------
// Executable helpers.
// ---------------------------------------------------------------------------

/// Finds the first occurrence of `c` in `s`.
fn find_char(s: &str, c: char) -> (r: Option<usize>)
    ensures
        match r {
            Some(i) => s@.contains(c) && i == spec_find(s@, c) && i < s@.len(),
            None => !s@.contains(c),
        },
{
    let len = s.unicode_len();
    let mut i: usize = 0;
    while i < len
        invariant
            len == s@.len(),
            i <= len,
            forall|j: int| 0 <= j < i ==> s@[j] != c,
        decreases len - i,
    {
        if s.get_char(i) == c {
            proof {
                lemma_find_at(s@, c, i as int);
            }
            return Some(i);
        }
        i += 1;
    }
    proof {
        assert(!s@.contains(c)) by {
            if s@.contains(c) {
                let j = choose|j: int| 0 <= j < s@.len() && s@[j] == c;
                assert(s@[j] != c);
            }
        }
    }
    None
}

/// The first occurrence of `c`, when one exists at a known position, is
/// what [`spec_find`] names.
proof fn lemma_find_at(s: Seq<char>, c: char, k: int)
    requires
        0 <= k < s.len(),
        s[k] == c,
        forall|j: int| 0 <= j < k ==> s[j] != c,
    ensures
        spec_find(s, c) == k,
    decreases s.len(),
{
    if k == 0 {
    } else {
        let tail = s.subrange(1, s.len() as int);
        assert(tail[k - 1] == c);
        lemma_find_at(tail, c, k - 1);
    }
}

/// Strips a known prefix, deciding whether it is there.
fn after_prefix<'a>(s: &'a str, p: &str) -> (r: Option<&'a str>)
    ensures
        match r {
            Some(t) => spec_starts_with(s@, p@) && t@ == spec_after(s@, p@),
            None => !spec_starts_with(s@, p@),
        },
{
    let slen = s.unicode_len();
    let plen = p.unicode_len();
    if slen < plen {
        return None;
    }
    let mut i: usize = 0;
    while i < plen
        invariant
            slen == s@.len(),
            plen == p@.len(),
            plen <= slen,
            i <= plen,
            forall|j: int| 0 <= j < i ==> s@[j] == p@[j],
        decreases plen - i,
    {
        if s.get_char(i) != p.get_char(i) {
            proof {
                assert(!spec_starts_with(s@, p@)) by {
                    if spec_starts_with(s@, p@) {
                        assert(s@.subrange(0, p@.len() as int)[i as int] == s@[i as int]);
                    }
                }
            }
            return None;
        }
        i += 1;
    }
    proof {
        assert(s@.subrange(0, p@.len() as int) =~= p@);
    }
    Some(s.substring_char(plen, slen))
}

/// Escapes text for a double-quoted value, as [`spec_escape`] lays out.
fn escape(s: &str) -> (r: String)
    ensures
        r@ == spec_escape(s@),
    decreases s@.len(),
{
    let len = s.unicode_len();
    if len == 0 {
        let out = String::new();
        proof {
            assert(out@ =~= spec_escape(s@));
        }
        return out;
    }
    let c0 = s.get_char(0);
    let head: &str = if c0 == '\\' {
        "\\\\"
    } else if c0 == '"' {
        "\\\""
    } else if c0 == '\n' {
        "\\n"
    } else {
        s.substring_char(0, 1)
    };
    let rest = escape(s.substring_char(1, len));
    let mut out = String::from_str(head);
    out.append(rest.as_str());
    proof {
        reveal_strlit("\\\\");
        reveal_strlit("\\\"");
        reveal_strlit("\\n");
        assert(head@ =~= spec_escape_char(s@[0]));
        assert(out@ =~= spec_escape(s@));
    }
    out
}

/// Folds the escapes of the inside of a double-quoted value, as
/// [`spec_unescape`] lays out.
fn unescape(s: &str) -> (r: Option<String>)
    ensures
        match r {
            Some(t) => spec_unescape(s@) == Some(t@),
            None => spec_unescape(s@) == None::<Seq<char>>,
        },
    decreases s@.len(),
{
    let len = s.unicode_len();
    if len == 0 {
        let out = String::new();
        proof {
            assert(out@ =~= Seq::<char>::empty());
        }
        return Some(out);
    }
    let c0 = s.get_char(0);
    if c0 == '"' {
        return None;
    }
    if c0 == '\\' {
        if len < 2 {
            return None;
        }
        let c1 = s.get_char(1);
        let head: &str = if c1 == '\\' {
            "\\"
        } else if c1 == '"' {
            "\""
        } else if c1 == 'n' {
            "\n"
        } else {
            return None;
        };
        match unescape(s.substring_char(2, len)) {
            None => None,
            Some(rest) => {
                let mut out = String::from_str(head);
                out.append(rest.as_str());
                proof {
                    reveal_strlit("\\");
                    reveal_strlit("\"");
                    reveal_strlit("\n");
                    assert(spec_unescape(s@) == Some(out@)) by {
                        assert(out@ =~= head@ + rest@);
                        if c1 == '\\' {
                            assert(out@ =~= seq!['\\'] + rest@);
                        } else if c1 == '"' {
                            assert(out@ =~= seq!['"'] + rest@);
                        } else {
                            assert(out@ =~= seq!['\n'] + rest@);
                        }
                    }
                }
                Some(out)
            },
        }
    } else {
        let head = s.substring_char(0, 1);
        match unescape(s.substring_char(1, len)) {
            None => None,
            Some(rest) => {
                let mut out = String::from_str(head);
                out.append(rest.as_str());
                proof {
                    assert(head@ =~= seq![s@[0]]);
                    assert(out@ =~= seq![s@[0]] + rest@);
                }
                Some(out)
            },
        }
    }
}

/// Reads a double-quoted value, folding its escapes back.
fn parse_quoted(v: &str) -> (r: Option<String>)
    ensures
        match r {
            Some(t) => spec_parse_quoted(v@) == Some(t@),
            None => spec_parse_quoted(v@) == None::<Seq<char>>,
        },
{
    let len = v.unicode_len();
    if len < 2 {
        return None;
    }
    if v.get_char(0) != '"' {
        return None;
    }
    if v.get_char(len - 1) != '"' {
        return None;
    }
    unescape(v.substring_char(1, len - 1))
}


// ---------------------------------------------------------------------------
// The executable parser.
// ---------------------------------------------------------------------------

/// The fields collected so far while reading a document.
struct DocAcc {
    api_url: Option<String>,
    model_version: Option<String>,
    primary_language: Option<LanguageCode>,
    secondary_language: Option<LanguageCode>,
    all_target_languages: Option<Vec<LanguageCode>>,
}

spec fn acc_view(a: DocAcc) -> AccView {
    AccView {
        api_url: match a.api_url {
            Some(u) => Some(u@),
            None => None,
        },
        model_version: match a.model_version {
            Some(m) => Some(m@),
            None => None,
        },
        primary_language: a.primary_language,
        secondary_language: a.secondary_language,
        all_target_languages: match a.all_target_languages {
            Some(ts) => Some(ts@),
            None => None,
        },
    }
}

/// Reads the comma-separated items of a language list.
fn parse_items(s: &str) -> (r: Option<Vec<LanguageCode>>)
    ensures
        match r {
            Some(v) => spec_parse_items(s@) == Some(v@),
            None => spec_parse_items(s@) == None::<Seq<LanguageCode>>,
        },
    decreases s@.len(),
{
    let len = s.unicode_len();
    if len == 0 {
        let v: Vec<LanguageCode> = Vec::new();
        proof {
            assert(v@ =~= Seq::<LanguageCode>::empty());
        }
        return Some(v);
    }
    if s.get_char(0) != '"' {
        return None;
    }
    let tail = s.substring_char(1, len);
    match find_char(tail, '"') {
        None => None,
        Some(j) => {
            let token = tail.substring_char(0, j);
            match LanguageCode::from_token(token) {
                None => None,
                Some(l) => {
                    let rest = tail.substring_char(j + 1, len - 1);
                    if rest.unicode_len() == 0 {
                        let mut v: Vec<LanguageCode> = Vec::new();
                        v.push(l);
                        proof {
                            assert(v@ =~= seq![l]);
                        }
                        Some(v)
                    } else {
                        match after_prefix(rest, ", ") {
                            None => {
                                proof {
                                    reveal_strlit(", ");
                                }
                                None
                            },
                            Some(more) => {
                                proof {
                                    reveal_strlit(", ");
                                }
                                match parse_items(more) {
                                    None => None,
                                    Some(mut ls) => {
                                        let mut v: Vec<LanguageCode> = Vec::new();
                                        v.push(l);
                                        v.append(&mut ls);
                                        proof {
                                            assert(v@ =~= seq![l] + spec_parse_items(
                                                more@,
                                            ).unwrap());
                                        }
                                        Some(v)
                                    },
                                }
                            },
                        }
                    }
                },
            }
        },
    }
}

/// Reads a bracketed language list.
fn parse_list(v: &str) -> (r: Option<Vec<LanguageCode>>)
    ensures
        match r {
            Some(ls) => spec_parse_list(v@) == Some(ls@),
            None => spec_parse_list(v@) == None::<Seq<LanguageCode>>,
        },
{
    let len = v.unicode_len();
    if len < 2 {
        return None;
    }
    if v.get_char(0) != '[' {
        return None;
    }
    if v.get_char(len - 1) != ']' {
        return None;
    }
    parse_items(v.substring_char(1, len - 1))
}

/// Applies one document line to the fields collected so far.
fn apply_line(line: &str, acc: DocAcc) -> (r: Option<DocAcc>)
    ensures
        match r {
            Some(a) => spec_apply_line(line@, acc_view(acc)) == Some(acc_view(a)),
            None => spec_apply_line(line@, acc_view(acc)) == None::<AccView>,
        },
{
    if line.unicode_len() == 0 {
        return Some(acc);
    }
    if let Some(v) = after_prefix(line, "api_url = ") {
        match parse_quoted(v) {
            Some(t) => {
                if acc.api_url.is_some() {
                    None
                } else {
                    Some(DocAcc { api_url: Some(t), ..acc })
                }
            },
            None => None,
        }
    } else if let Some(v) = after_prefix(line, "model_version = ") {
        match parse_quoted(v) {
            Some(t) => {
                if acc.model_version.is_some() {
                    None
                } else {
                    Some(DocAcc { model_version: Some(t), ..acc })
                }
            },
            None => None,
        }
    } else if let Some(v) = after_prefix(line, "primary_language = ") {
        match parse_lang_value(v) {
            Some(l) => {
                if acc.primary_language.is_some() {
                    None
                } else {
                    Some(DocAcc { primary_language: Some(l), ..acc })
                }
            },
            None => None,
        }
    } else if let Some(v) = after_prefix(line, "secondary_language = ") {
        match parse_lang_value(v) {
            Some(l) => {
                if acc.secondary_language.is_some() {
                    None
                } else {
                    Some(DocAcc { secondary_language: Some(l), ..acc })
                }
            },
            None => None,
        }
    } else if let Some(v) = after_prefix(line, "all_target_languages = ") {
        match parse_list(v) {
            Some(ls) => {
                if acc.all_target_languages.is_some() {
                    None
                } else {
                    Some(DocAcc { all_target_languages: Some(ls), ..acc })
                }
            },
            None => None,
        }
    } else {
        None
    }
}

/// Reads a double-quoted language field.
fn parse_lang_value(v: &str) -> (r: Option<LanguageCode>)
    ensures
        r == spec_parse_lang(v@),
{
    match parse_quoted(v) {
        Some(t) => LanguageCode::from_token(t.as_str()),
        None => None,
    }
}

/// Reads a whole document, line by line.
fn parse_doc(s: &str, acc: DocAcc) -> (r: Option<DocAcc>)
    ensures
        match r {
            Some(a) => spec_parse_doc(s@, acc_view(acc)) == Some(acc_view(a)),
            None => spec_parse_doc(s@, acc_view(acc)) == None::<AccView>,
        },
    decreases s@.len(),
{
    let len = s.unicode_len();
    match find_char(s, '\n') {
        Some(i) => {
            let line = s.substring_char(0, i);
            let rest = s.substring_char(i + 1, len);
            match apply_line(line, acc) {
                Some(a2) => parse_doc(rest, a2),
                None => None,
            }
        },
        None => apply_line(s, acc),
    }
}

/// Parses a configuration document.
///
/// The result is exactly what the document grammar names: `Some` on a
/// well-formed document whose required fields are all present and `None`
/// on anything else, per [`spec_parse_config`].
pub fn parse_config(s: &str) -> (r: Option<Config>)
    ensures
        match r {
            Some(c) => spec_parse_config(s@) == Some(c@),
            None => spec_parse_config(s@) == None::<ConfigView>,
        },
{
    let acc = DocAcc {
        api_url: None,
        model_version: None,
        primary_language: None,
        secondary_language: None,
        all_target_languages: None,
    };
    proof {
        assert(acc_view(acc) =~= spec_empty_acc());
    }
    match parse_doc(s, acc) {
        None => None,
        Some(a) => {
            let DocAcc { api_url, model_version, primary_language, secondary_language, all_target_languages } = a;
            match (api_url, model_version, primary_language, secondary_language) {
                (Some(u), Some(m), Some(p), Some(sec)) => {
                    let targets = match all_target_languages {
                        Some(ts) => ts,
                        None => crate::config::default_target_languages(),
                    };
                    Some(
                        Config {
                            api_url: u,
                            model_version: m,
                            primary_language: p,
                            secondary_language: sec,
                            all_target_languages: targets,
                        },
                    )
                },
                _ => None,
            }
        },
    }
}


// ---------------------------------------------------------------------------
// The serializer.
// ---------------------------------------------------------------------------

/// The `api_url` line of a rendered document, without its line feed.
pub open spec fn spec_line_api_url(u: Seq<char>) -> Seq<char> {
    "api_url = "@ + spec_quote(spec_escape(u))
}

/// The `model_version` line, without its line feed.
pub open spec fn spec_line_model(m: Seq<char>) -> Seq<char> {
    "model_version = "@ + spec_quote(spec_escape(m))
}

/// The `primary_language` line, without its line feed.
pub open spec fn spec_line_primary(l: LanguageCode) -> Seq<char> {
    "primary_language = "@ + spec_quote(l.code_chars())
}

/// The `secondary_language` line, without its line feed.
pub open spec fn spec_line_secondary(l: LanguageCode) -> Seq<char> {
    "secondary_language = "@ + spec_quote(l.code_chars())
}

/// The quoted, comma-separated items of the language list.
pub open spec fn spec_list_body(ts: Seq<LanguageCode>) -> Seq<char>
    decreases ts.len(),
{
    if ts.len() == 0 {
        Seq::empty()
    } else if ts.len() == 1 {
        spec_quote(ts[0].code_chars())
    } else {
        spec_quote(ts[0].code_chars()) + ", "@ + spec_list_body(ts.subrange(1, ts.len() as int))
    }
}

/// The `all_target_languages` line, without its line feed.
pub open spec fn spec_line_targets(ts: Seq<LanguageCode>) -> Seq<char> {
    "all_target_languages = "@ + ("["@ + spec_list_body(ts) + "]"@)
}

/// The whole rendered document: one line per field, each ended by a line
/// feed, in a fixed order.
pub open spec fn spec_serialize_config(c: ConfigView) -> Seq<char> {
    spec_line_api_url(c.api_url) + "\n"@ + spec_line_model(c.model_version) + "\n"@
        + spec_line_primary(c.primary_language) + "\n"@ + spec_line_secondary(
        c.secondary_language,
    ) + "\n"@ + spec_line_targets(c.all_target_languages) + "\n"@
}

/// Appending one language to a list extends its rendered body by one
/// quoted code, after a comma when the list was not empty.
proof fn lemma_list_body_push(ts: Seq<LanguageCode>, x: LanguageCode)
    ensures
        ts.len() == 0 ==> spec_list_body(ts.push(x)) == spec_quote(x.code_chars()),
        ts.len() > 0 ==> spec_list_body(ts.push(x)) == spec_list_body(ts) + ", "@ + spec_quote(
            x.code_chars(),
        ),
    decreases ts.len(),
{
    if ts.len() == 0 {
        assert(ts.push(x) =~= seq![x]);
        assert(spec_list_body(seq![x]) == spec_quote(x.code_chars()));
    } else {
        let tail = ts.subrange(1, ts.len() as int);
        lemma_list_body_push(tail, x);
        assert(ts.push(x).subrange(1, ts.push(x).len() as int) =~= tail.push(x));
        if ts.len() == 1 {
            assert(tail.len() == 0);
            assert(spec_list_body(ts.push(x)) == spec_quote(ts[0].code_chars()) + ", "@
                + spec_quote(x.code_chars()));
            assert(spec_list_body(ts) + ", "@ + spec_quote(x.code_chars()) == spec_quote(
                ts[0].code_chars(),
            ) + ", "@ + spec_quote(x.code_chars()));
        } else {
            assert(spec_list_body(ts.push(x)) == spec_quote(ts[0].code_chars()) + ", "@
                + (spec_list_body(tail) + ", "@ + spec_quote(x.code_chars())));
            assert(spec_list_body(ts.push(x)) =~= spec_list_body(ts) + ", "@ + spec_quote(
                x.code_chars(),
            ));
        }
    }
}

/// Renders a record as a configuration document, exactly as
/// [`spec_serialize_config`] lays it out.
pub fn render_config(c: &Config) -> (out: String)
    ensures
        out@ == spec_serialize_config(c@),
{
    let mut out = String::new();
    out.append("api_url = ");
    out.append("\"");
    let escaped_url = escape(c.api_url.as_str());
    out.append(escaped_url.as_str());
    out.append("\"");
    out.append("\n");
    let ghost d1 = spec_line_api_url(c@.api_url) + "\n"@;
    proof {
        assert(out@ =~= d1);
    }
    out.append("model_version = ");
    out.append("\"");
    let escaped_model = escape(c.model_version.as_str());
    out.append(escaped_model.as_str());
    out.append("\"");
    out.append("\n");
    let ghost d2 = d1 + spec_line_model(c@.model_version) + "\n"@;
    proof {
        assert(out@ =~= d2);
    }
    out.append("primary_language = ");
    out.append("\"");
    out.append(c.primary_language.iso_code());
    out.append("\"");
    out.append("\n");
    let ghost d3 = d2 + spec_line_primary(c@.primary_language) + "\n"@;
    proof {
        assert(out@ =~= d3);
    }
    out.append("secondary_language = ");
    out.append("\"");
    out.append(c.secondary_language.iso_code());
    out.append("\"");
    out.append("\n");
    let ghost d4 = d3 + spec_line_secondary(c@.secondary_language) + "\n"@;
    proof {
        assert(out@ =~= d4);
    }
    out.append("all_target_languages = ");
    out.append("[");
    let ghost base = d4 + "all_target_languages = "@ + "["@;
    proof {
        assert(out@ =~= base);
    }
    let ghost ts = c@.all_target_languages;
    let n = c.all_target_languages.len();
    let mut i: usize = 0;
    while i < n
        invariant
            n == ts.len(),
            ts == c@.all_target_languages,
            i <= n,
            out@ == base + spec_list_body(ts.take(i as int)),
        decreases n - i,
    {
        if i > 0 {
            out.append(", ");
        }
        out.append("\"");
        out.append(c.all_target_languages[i].iso_code());
        out.append("\"");
        proof {
            assert(ts.take(i as int).push(ts[i as int]) =~= ts.take(i + 1));
            lemma_list_body_push(ts.take(i as int), ts[i as int]);
            if i == 0 {
                assert(out@ =~= base + spec_list_body(ts.take(i + 1)));
            } else {
                assert(out@ =~= base + spec_list_body(ts.take(i + 1)));
            }
        }
        i += 1;
    }
    out.append("]");
    out.append("\n");
    proof {
        assert(ts.take(n as int) =~= ts);
        assert(out@ =~= spec_serialize_config(c@));
    }
    out
}


// ---------------------------------------------------------------------------
// Parsing a rendered document gives the record back.
// ---------------------------------------------------------------------------

/// A language code holds no quote, no backslash and no line feed.
proof fn lemma_code_chars_plain(l: LanguageCode)
    ensures
        forall|i: int| 0 <= i < l.code_chars().len() ==> l.code_chars()[i] != '"'
            && l.code_chars()[i] != '\n' && l.code_chars()[i] != '\\',
{
    reveal_strlit("EN");
    reveal_strlit("FR");
    reveal_strlit("DE");
    reveal_strlit("ES");
    reveal_strlit("IT");
    reveal_strlit("PL");
    reveal_strlit("PT");
    reveal_strlit("RU");
    reveal_strlit("UK");
    reveal_strlit("JA");
    reveal_strlit("ZH");
    reveal_strlit("KO");
}

/// Folding the escapes of text free of quotes and backslashes leaves it
/// unchanged: old documents written without escapes still read the same.
proof fn lemma_unescape_plain(t: Seq<char>)
    requires
        forall|i: int| 0 <= i < t.len() ==> t[i] != '"' && t[i] != '\\',
    ensures
        spec_unescape(t) == Some(t),
    decreases t.len(),
{
    if t.len() == 0 {
        assert(t =~= Seq::<char>::empty());
    } else {
        let rest = t.subrange(1, t.len() as int);
        lemma_unescape_plain(rest);
        assert(seq![t[0]] + rest =~= t);
    }
}

/// Folding the escapes of escaped text yields the text back.
proof fn lemma_unescape_escape(u: Seq<char>)
    ensures
        spec_unescape(spec_escape(u)) == Some(u),
    decreases u.len(),
{
    if u.len() == 0 {
        assert(spec_escape(u) =~= Seq::<char>::empty());
        assert(u =~= Seq::<char>::empty());
    } else {
        let rest = u.subrange(1, u.len() as int);
        lemma_unescape_escape(rest);
        let er = spec_escape(rest);
        let e = spec_escape(u);
        if u[0] == '\\' || u[0] == '"' || u[0] == '\n' {
            assert(e.len() == 2 + er.len());
            assert(e[0] == '\\');
            assert(e.subrange(2, e.len() as int) =~= er);
            assert(seq![u[0]] + rest =~= u);
        } else {
            assert(e.len() == 1 + er.len());
            assert(e[0] == u[0]);
            assert(e.subrange(1, e.len() as int) =~= er);
            assert(seq![u[0]] + rest =~= u);
        }
    }
}

/// One escaped character holds no line feed.
proof fn lemma_escape_char_no_nl(c: char)
    ensures
        forall|j: int| 0 <= j < spec_escape_char(c).len() ==> spec_escape_char(c)[j] != '\n',
{
}

/// Escaped text holds no line feed, whatever the text.
proof fn lemma_escape_no_nl(u: Seq<char>)
    ensures
        forall|i: int| 0 <= i < spec_escape(u).len() ==> spec_escape(u)[i] != '\n',
    decreases u.len(),
{
    if u.len() == 0 {
    } else {
        let rest = u.subrange(1, u.len() as int);
        lemma_escape_no_nl(rest);
        lemma_escape_char_no_nl(u[0]);
        let hd = spec_escape_char(u[0]);
        assert forall|i: int| 0 <= i < spec_escape(u).len() implies spec_escape(u)[i] != '\n' by {
            if i < hd.len() {
                assert(spec_escape(u)[i] == hd[i]);
            } else {
                assert(spec_escape(u)[i] == spec_escape(rest)[i - hd.len()]);
            }
        }
    }
}

/// Quoting escaped text, then reading it back, yields the text, whatever
/// characters it holds.
proof fn lemma_quote_escape_round_trip(u: Seq<char>)
    ensures
        spec_parse_quoted(spec_quote(spec_escape(u))) == Some(u),
{
    reveal_strlit("\"");
    let e = spec_escape(u);
    let v = spec_quote(e);
    assert(v.len() == e.len() + 2);
    assert(v[0] == '"');
    assert(v[v.len() - 1] == '"');
    assert(v.subrange(1, v.len() - 1) =~= e);
    lemma_unescape_escape(u);
}

/// Quoting text free of quotes and backslashes, then reading it back,
/// yields the text: the form language codes take.
proof fn lemma_quote_plain_round_trip(t: Seq<char>)
    requires
        forall|i: int| 0 <= i < t.len() ==> t[i] != '"' && t[i] != '\\',
    ensures
        spec_parse_quoted(spec_quote(t)) == Some(t),
{
    reveal_strlit("\"");
    let v = spec_quote(t);
    assert(v.len() == t.len() + 2);
    assert(v[0] == '"');
    assert(v[v.len() - 1] == '"');
    assert(v.subrange(1, v.len() - 1) =~= t);
    lemma_unescape_plain(t);
}

/// Reading one line of a document whose line holds no line feed consumes
/// exactly that line.
proof fn lemma_parse_doc_step(line: Seq<char>, rest: Seq<char>, acc: AccView, a2: AccView)
    requires
        forall|i: int| 0 <= i < line.len() ==> line[i] != '\n',
        spec_apply_line(line, acc) == Some(a2),
    ensures
        spec_parse_doc(line + "\n"@ + rest, acc) == spec_parse_doc(rest, a2),
{
    reveal_strlit("\n");
    let s = line + "\n"@ + rest;
    assert(s[line.len() as int] == '\n');
    assert(forall|j: int| 0 <= j < line.len() ==> s[j] == line[j]);
    lemma_find_at(s, '\n', line.len() as int);
    assert(s.contains('\n')) by {
        assert(s[line.len() as int] == '\n');
    }
    assert(s.subrange(0, line.len() as int) =~= line);
    assert(s.subrange(line.len() as int + 1, s.len() as int) =~= rest);
}

/// Reading the rendered body of a language list gives the list back.
#[verifier::rlimit(60)]
#[verifier::spinoff_prover]
proof fn lemma_items_round_trip(ts: Seq<LanguageCode>)
    ensures
        spec_parse_items(spec_list_body(ts)) == Some(ts),
    decreases ts.len(),
{
    reveal_strlit("\"");
    reveal_strlit(", ");
    if ts.len() == 0 {
        assert(spec_list_body(ts) =~= Seq::<char>::empty());
        assert(ts =~= Seq::<LanguageCode>::empty());
    } else {
        let l = ts[0];
        let code = l.code_chars();
        lemma_code_chars_plain(l);
        crate::language::lemma_code_round_trip(l);
        let s = spec_list_body(ts);
        if ts.len() == 1 {
            // s = '"' + code + '"'
            assert(s == spec_quote(code));
            assert(s.len() == code.len() + 2);
            assert(s[0] == '"');
            let tail = s.subrange(1, s.len() as int);
            assert(tail.len() == code.len() + 1);
            assert(tail[code.len() as int] == '"');
            assert(forall|j: int| 0 <= j < code.len() ==> tail[j] == code[j]);
            lemma_find_at(tail, '"', code.len() as int);
            assert(tail.contains('"')) by {
                assert(tail[code.len() as int] == '"');
            }
            let j = spec_find(tail, '"');
            assert(j == code.len() as int);
            assert(tail.subrange(0, j) =~= code);
            let rest = tail.subrange(j + 1, tail.len() as int);
            assert(rest.len() == 0);
            assert(seq![l] =~= ts);
        } else {
            let tail_ts = ts.subrange(1, ts.len() as int);
            lemma_items_round_trip(tail_ts);
            let body_rest = spec_list_body(tail_ts);
            assert(s == spec_quote(code) + ", "@ + body_rest);
            assert(s.len() == code.len() + 4 + body_rest.len());
            assert(s[0] == '"');
            let tail = s.subrange(1, s.len() as int);
            assert(tail[code.len() as int] == '"');
            assert(forall|j: int| 0 <= j < code.len() ==> tail[j] == code[j]);
            lemma_find_at(tail, '"', code.len() as int);
            assert(tail.contains('"')) by {
                assert(tail[code.len() as int] == '"');
            }
            let j = spec_find(tail, '"');
            assert(j == code.len() as int);
            assert(tail.subrange(0, j) =~= code);
            let rest = tail.subrange(j + 1, tail.len() as int);
            assert(rest.len() == 2 + body_rest.len());
            assert(rest[0] == ',' && rest[1] == ' ');
            assert(rest.subrange(0, 2) =~= ", "@);
            assert(spec_starts_with(rest, ", "@));
            assert(spec_after(rest, ", "@) =~= body_rest);
            assert(seq![l] + tail_ts =~= ts);
        }
    }
}



/// A rendered line holds no line feed, provided its free text holds none.
proof fn lemma_line_no_nl(key: Seq<char>, body: Seq<char>)
    requires
        forall|i: int| 0 <= i < key.len() ==> key[i] != '\n',
        forall|i: int| 0 <= i < body.len() ==> body[i] != '\n',
    ensures
        forall|i: int| 0 <= i < (key + body).len() ==> (key + body)[i] != '\n',
{
}

/// The quoted form of newline-free text is newline-free.
proof fn lemma_quote_no_nl(u: Seq<char>)
    requires
        forall|i: int| 0 <= i < u.len() ==> u[i] != '\n',
    ensures
        forall|i: int| 0 <= i < spec_quote(u).len() ==> spec_quote(u)[i] != '\n',
{
    reveal_strlit("\"");
    reveal_strlit("\n");
    assert forall|i: int| 0 <= i < spec_quote(u).len() implies spec_quote(u)[i] != '\n' by {
        let v = spec_quote(u);
        if i == 0 || i == v.len() - 1 {
        } else {
            assert(v[i] == u[i - 1]);
        }
    }
}

/// Reading the `api_url` line records its value.
proof fn lemma_apply_line_api(u: Seq<char>, acc: AccView)
    requires
        acc.api_url is None,
    ensures
        spec_apply_line(spec_line_api_url(u), acc) == Some(AccView { api_url: Some(u), ..acc }),
{
    reveal_strlit("api_url = ");
    reveal_strlit("\"");
    let key = "api_url = "@;
    let line = spec_line_api_url(u);
    assert(line.subrange(0, key.len() as int) =~= key);
    assert(spec_starts_with(line, key));
    assert(spec_after(line, key) =~= spec_quote(spec_escape(u)));
    lemma_quote_escape_round_trip(u);
}

/// Reading the `model_version` line records its value.
proof fn lemma_apply_line_model(m: Seq<char>, acc: AccView)
    requires
        acc.model_version is None,
    ensures
        spec_apply_line(spec_line_model(m), acc) == Some(
            AccView { model_version: Some(m), ..acc },
        ),
{
    reveal_strlit("api_url = ");
    reveal_strlit("model_version = ");
    reveal_strlit("\"");
    let key = "model_version = "@;
    let line = spec_line_model(m);
    assert(!spec_starts_with(line, "api_url = "@)) by {
        if spec_starts_with(line, "api_url = "@) {
            assert(line.subrange(0, "api_url = "@.len() as int)[0] == line[0]);
        }
    }
    assert(line.subrange(0, key.len() as int) =~= key);
    assert(spec_starts_with(line, key));
    assert(spec_after(line, key) =~= spec_quote(spec_escape(m)));
    lemma_quote_escape_round_trip(m);
}

/// Reading the `primary_language` line records its language.
proof fn lemma_apply_line_primary(l: LanguageCode, acc: AccView)
    requires
        acc.primary_language is None,
    ensures
        spec_apply_line(spec_line_primary(l), acc) == Some(
            AccView { primary_language: Some(l), ..acc },
        ),
{
    reveal_strlit("api_url = ");
    reveal_strlit("model_version = ");
    reveal_strlit("primary_language = ");
    reveal_strlit("\"");
    let key = "primary_language = "@;
    let line = spec_line_primary(l);
    lemma_code_chars_plain(l);
    assert(!spec_starts_with(line, "api_url = "@)) by {
        if spec_starts_with(line, "api_url = "@) {
            assert(line.subrange(0, "api_url = "@.len() as int)[0] == line[0]);
        }
    }
    assert(!spec_starts_with(line, "model_version = "@)) by {
        if spec_starts_with(line, "model_version = "@) {
            assert(line.subrange(0, "model_version = "@.len() as int)[0] == line[0]);
        }
    }
    assert(line.subrange(0, key.len() as int) =~= key);
    assert(spec_starts_with(line, key));
    assert(spec_after(line, key) =~= spec_quote(l.code_chars()));
    lemma_quote_plain_round_trip(l.code_chars());
    crate::language::lemma_code_round_trip(l);
}

/// Reading the `secondary_language` line records its language.
proof fn lemma_apply_line_secondary(l: LanguageCode, acc: AccView)
    requires
        acc.secondary_language is None,
    ensures
        spec_apply_line(spec_line_secondary(l), acc) == Some(
            AccView { secondary_language: Some(l), ..acc },
        ),
{
    reveal_strlit("api_url = ");
    reveal_strlit("model_version = ");
    reveal_strlit("primary_language = ");
    reveal_strlit("secondary_language = ");
    reveal_strlit("\"");
    let key = "secondary_language = "@;
    let line = spec_line_secondary(l);
    lemma_code_chars_plain(l);
    assert(!spec_starts_with(line, "api_url = "@)) by {
        if spec_starts_with(line, "api_url = "@) {
            assert(line.subrange(0, "api_url = "@.len() as int)[0] == line[0]);
        }
    }
    assert(!spec_starts_with(line, "model_version = "@)) by {
        if spec_starts_with(line, "model_version = "@) {
            assert(line.subrange(0, "model_version = "@.len() as int)[0] == line[0]);
        }
    }
    assert(!spec_starts_with(line, "primary_language = "@)) by {
        if spec_starts_with(line, "primary_language = "@) {
            assert(line.subrange(0, "primary_language = "@.len() as int)[0] == line[0]);
        }
    }
    assert(line.subrange(0, key.len() as int) =~= key);
    assert(spec_starts_with(line, key));
    assert(spec_after(line, key) =~= spec_quote(l.code_chars()));
    lemma_quote_plain_round_trip(l.code_chars());
    crate::language::lemma_code_round_trip(l);
}

/// Reading the `all_target_languages` line records its list.
proof fn lemma_apply_line_targets(ts: Seq<LanguageCode>, acc: AccView)
    requires
        acc.all_target_languages is None,
    ensures
        spec_apply_line(spec_line_targets(ts), acc) == Some(
            AccView { all_target_languages: Some(ts), ..acc },
        ),
{
    reveal_strlit("api_url = ");
    reveal_strlit("model_version = ");
    reveal_strlit("primary_language = ");
    reveal_strlit("secondary_language = ");
    reveal_strlit("all_target_languages = ");
    reveal_strlit("[");
    reveal_strlit("]");
    let key = "all_target_languages = "@;
    let line = spec_line_targets(ts);
    assert(!spec_starts_with(line, "api_url = "@)) by {
        if spec_starts_with(line, "api_url = "@) {
            assert(line.subrange(0, "api_url = "@.len() as int)[1] == line[1]);
        }
    }
    assert(!spec_starts_with(line, "model_version = "@)) by {
        if spec_starts_with(line, "model_version = "@) {
            assert(line.subrange(0, "model_version = "@.len() as int)[0] == line[0]);
        }
    }
    assert(!spec_starts_with(line, "primary_language = "@)) by {
        if spec_starts_with(line, "primary_language = "@) {
            assert(line.subrange(0, "primary_language = "@.len() as int)[0] == line[0]);
        }
    }
    assert(!spec_starts_with(line, "secondary_language = "@)) by {
        if spec_starts_with(line, "secondary_language = "@) {
            assert(line.subrange(0, "secondary_language = "@.len() as int)[0] == line[0]);
        }
    }
    assert(line.subrange(0, key.len() as int) =~= key);
    assert(spec_starts_with(line, key));
    let v = "["@ + spec_list_body(ts) + "]"@;
    assert(spec_after(line, key) =~= v);
    assert(v[0] == '[');
    assert(v[v.len() - 1] == ']');
    assert(v.len() >= 2);
    assert(v.subrange(1, v.len() - 1) =~= spec_list_body(ts));
    lemma_items_round_trip(ts);
}


/// The rendered body of a language list holds no line feed.
proof fn lemma_list_body_no_nl(ts: Seq<LanguageCode>)
    ensures
        forall|i: int| 0 <= i < spec_list_body(ts).len() ==> spec_list_body(ts)[i] != '\n',
    decreases ts.len(),
{
    reveal_strlit("\"");
    reveal_strlit(", ");
    reveal_strlit("\n");
    if ts.len() == 0 {
    } else {
        lemma_code_chars_plain(ts[0]);
        lemma_quote_no_nl(ts[0].code_chars());
        if ts.len() == 1 {
        } else {
            let tail = ts.subrange(1, ts.len() as int);
            lemma_list_body_no_nl(tail);
            lemma_line_no_nl(spec_quote(ts[0].code_chars()), ", "@);
            lemma_line_no_nl(spec_quote(ts[0].code_chars()) + ", "@, spec_list_body(tail));
        }
    }
}

/// Parsing a rendered document gives the record back, whatever its free
/// text holds: escaping lets the format carry every record.
///
/// This is the formal core of the save-then-load round trip: rendering is
/// injective, and a reader sees exactly what was written.
#[verifier::rlimit(100)]
#[verifier::spinoff_prover]
pub proof fn lemma_render_parse_round_trip(c: ConfigView)
    ensures
        spec_parse_config(spec_serialize_config(c)) == Some(c),
{
    reveal_strlit("api_url = ");
    reveal_strlit("model_version = ");
    reveal_strlit("primary_language = ");
    reveal_strlit("secondary_language = ");
    reveal_strlit("all_target_languages = ");
    reveal_strlit("[");
    reveal_strlit("]");
    reveal_strlit("\"");
    reveal_strlit("\n");
    let u = c.api_url;
    let m = c.model_version;
    let p = c.primary_language;
    let sc = c.secondary_language;
    let ts = c.all_target_languages;
    let l1 = spec_line_api_url(u);
    let l2 = spec_line_model(m);
    let l3 = spec_line_primary(p);
    let l4 = spec_line_secondary(sc);
    let l5 = spec_line_targets(ts);
    let nl = "\n"@;

    // None of the five lines holds a line feed: free text is escaped,
    // and everything else is drawn from line-free pieces.
    lemma_escape_no_nl(u);
    lemma_quote_no_nl(spec_escape(u));
    lemma_line_no_nl("api_url = "@, spec_quote(spec_escape(u)));
    lemma_escape_no_nl(m);
    lemma_quote_no_nl(spec_escape(m));
    lemma_line_no_nl("model_version = "@, spec_quote(spec_escape(m)));
    lemma_code_chars_plain(p);
    lemma_quote_no_nl(p.code_chars());
    lemma_line_no_nl("primary_language = "@, spec_quote(p.code_chars()));
    lemma_code_chars_plain(sc);
    lemma_quote_no_nl(sc.code_chars());
    lemma_line_no_nl("secondary_language = "@, spec_quote(sc.code_chars()));
    lemma_list_body_no_nl(ts);
    assert(forall|i: int| 0 <= i < ("["@ + spec_list_body(ts)).len() ==> ("["@ + spec_list_body(
        ts,
    ))[i] != '\n');
    lemma_line_no_nl("["@ + spec_list_body(ts), "]"@);
    assert("["@ + spec_list_body(ts) + "]"@ =~= ("["@ + spec_list_body(ts)) + "]"@);
    assert(forall|i: int| 0 <= i < l5.len() ==> l5[i] != '\n') by {
        lemma_line_no_nl("all_target_languages = "@, "["@ + spec_list_body(ts) + "]"@);
    }

    // The collected fields after each line.
    let a0 = spec_empty_acc();
    let a1 = AccView { api_url: Some(u), ..a0 };
    let a2 = AccView { model_version: Some(m), ..a1 };
    let a3 = AccView { primary_language: Some(p), ..a2 };
    let a4 = AccView { secondary_language: Some(sc), ..a3 };
    let a5 = AccView { all_target_languages: Some(ts), ..a4 };
    lemma_apply_line_api(u, a0);
    lemma_apply_line_model(m, a1);
    lemma_apply_line_primary(p, a2);
    lemma_apply_line_secondary(sc, a3);
    lemma_apply_line_targets(ts, a4);

    // Peel the document line by line.
    let empty = Seq::<char>::empty();
    let r5 = l5 + nl + empty;
    let r4 = l4 + nl + r5;
    let r3 = l3 + nl + r4;
    let r2 = l2 + nl + r3;
    let r1 = l1 + nl + r2;
    assert(spec_serialize_config(c) =~= r1);
    lemma_parse_doc_step(l1, r2, a0, a1);
    lemma_parse_doc_step(l2, r3, a1, a2);
    lemma_parse_doc_step(l3, r4, a2, a3);
    lemma_parse_doc_step(l4, r5, a3, a4);
    lemma_parse_doc_step(l5, empty, a4, a5);
    assert(!empty.contains('\n'));
    assert(spec_parse_doc(empty, a5) == spec_apply_line(empty, a5));
    assert(spec_apply_line(empty, a5) == Some(a5));
    assert(spec_parse_doc(spec_serialize_config(c), a0) == Some(a5));

    // Finishing the collected fields gives the record back.
    assert(spec_finish(a5) == Some(c)) by {
        let got = spec_finish(a5).unwrap();
        assert(got =~= c);
    }
}


/// Saving and then loading yields the saved record, for every record.
///
/// Save-time repair, rendering, parsing and load-time repair compose to
/// the identity on the repaired record; and that record differs from the
/// one handed to save only where the repair rules intentionally apply,
/// never in its free text or its two language fields.
pub proof fn lemma_save_load_round_trip(c: ConfigView)
    ensures
        spec_parse_config(spec_serialize_config(spec_repair_for_save(c))) == Some(
            spec_repair_for_save(c),
        ),
        spec_repair_for_load(spec_repair_for_save(c)) == spec_repair_for_save(c),
        spec_repair_for_save(c).api_url == c.api_url,
        spec_repair_for_save(c).model_version == c.model_version,
        spec_repair_for_save(c).primary_language == c.primary_language,
        spec_repair_for_save(c).secondary_language == c.secondary_language,
{
    let saved = spec_repair_for_save(c);
    lemma_render_parse_round_trip(saved);
    assert(saved.all_target_languages.len() > 0);
    assert(spec_repair_for_load(saved) =~= saved);
}

/// Saving the same record twice in a row writes the very same document,
/// so loading after the second save reads exactly what loading after the
/// first did.
pub proof fn lemma_save_idempotent(c: ConfigView)
    ensures
        spec_serialize_config(spec_repair_for_save(spec_repair_for_save(c)))
            == spec_serialize_config(spec_repair_for_save(c)),
{
    crate::config::lemma_repair_for_save_idempotent(c);
}

} // verus!

//! Small verified helpers on strings and character sequences that the rest
//! of the library shares: equality, prefix tests and whitespace trimming.

use vstd::prelude::*;

verus! {

/// A character counts as blank for trimming purposes: space, tab,
/// carriage return or line feed.
pub open spec fn is_blank_char(c: char) -> bool {
    c == ' ' || c == '\t' || c == '\r' || c == '\n'
}

/// The sequence with leading and trailing blank characters removed.
pub open spec fn spec_trim(s: Seq<char>) -> Seq<char>
    decreases s.len(),
{
    if s.len() == 0 {
        s
    } else if is_blank_char(s[0]) {
        spec_trim(s.subrange(1, s.len() as int))
    } else if is_blank_char(s[s.len() - 1]) {
        spec_trim(s.subrange(0, s.len() - 1))
    } else {
        s
    }
}

/// Exact string equality, decided character by character.
pub fn str_eq(a: &str, b: &str) -> (r: bool)
    ensures
        r == (a@ == b@),
{
    let alen = a.unicode_len();
    let blen = b.unicode_len();
    if alen != blen {
        return false;
    }
    let mut i: usize = 0;
    while i < alen
        invariant
            alen == a@.len(),
            blen == b@.len(),
            alen == blen,
            i <= alen,
            forall|j: int| 0 <= j < i ==> a@[j] == b@[j],
        decreases alen - i,
    {
        if a.get_char(i) != b.get_char(i) {
            return false;
        }
        i += 1;
    }
    proof {
        assert(a@ =~= b@);
    }
    true
}


/// Trimming a sequence of blanks leaves nothing.
proof fn lemma_trim_all_blank(s: Seq<char>)
    requires
        forall|j: int| 0 <= j < s.len() ==> is_blank_char(s[j]),
    ensures
        spec_trim(s) == Seq::<char>::empty(),
    decreases s.len(),
{
    if s.len() == 0 {
        assert(s =~= Seq::<char>::empty());
    } else {
        lemma_trim_all_blank(s.subrange(1, s.len() as int));
    }
}

/// Trimming strips exactly the blank margins around the non-blank core.
proof fn lemma_trim_range(s: Seq<char>, a: int, b: int)
    requires
        0 <= a <= b < s.len(),
        forall|j: int| 0 <= j < a ==> is_blank_char(s[j]),
        forall|j: int| b < j < s.len() ==> is_blank_char(s[j]),
        !is_blank_char(s[a]),
        !is_blank_char(s[b]),
    ensures
        spec_trim(s) == s.subrange(a, b + 1),
    decreases s.len(),
{
    if a > 0 {
        let t = s.subrange(1, s.len() as int);
        lemma_trim_range(t, a - 1, b - 1);
        assert(t.subrange(a - 1, b) =~= s.subrange(a, b + 1));
    } else if b < s.len() - 1 {
        let t = s.subrange(0, s.len() - 1);
        lemma_trim_range(t, a, b);
        assert(t.subrange(a, b + 1) =~= s.subrange(a, b + 1));
    } else {
        assert(s.subrange(0, s.len() as int) =~= s);
    }
}

/// Decides whether a character counts as blank.
fn is_blank(c: char) -> (r: bool)
    ensures
        r == is_blank_char(c),
{
    c == ' ' || c == '\t' || c == '\r' || c == '\n'
}

/// The index of the first non-blank character, or the length when every
/// character is blank.
fn first_non_blank(s: &str) -> (a: usize)
    ensures
        a <= s@.len(),
        forall|j: int| 0 <= j < a ==> is_blank_char(s@[j]),
        a < s@.len() ==> !is_blank_char(s@[a as int]),
{
    let len = s.unicode_len();
    let mut i: usize = 0;
    while i < len
        invariant
            len == s@.len(),
            i <= len,
            forall|j: int| 0 <= j < i ==> is_blank_char(s@[j]),
        decreases len - i,
    {
        if !is_blank(s.get_char(i)) {
            return i;
        }
        i += 1;
    }
    len
}

/// The index of the last non-blank character at or after `a`.
fn last_non_blank(s: &str, a: usize) -> (b: usize)
    requires
        a < s@.len(),
        !is_blank_char(s@[a as int]),
    ensures
        a <= b < s@.len(),
        !is_blank_char(s@[b as int]),
        forall|j: int| b < j < s@.len() ==> is_blank_char(s@[j]),
{
    let len = s.unicode_len();
    let mut i: usize = len - 1;
    while i > a
        invariant
            len == s@.len(),
            a <= i < len,
            forall|j: int| i < j < len ==> is_blank_char(s@[j]),
        decreases i,
    {
        if !is_blank(s.get_char(i)) {
            return i;
        }
        i -= 1;
    }
    a
}

/// Strips leading and trailing blank characters.
pub fn trim<'a>(s: &'a str) -> (r: &'a str)
    ensures
        r@ == spec_trim(s@),
{
    let len = s.unicode_len();
    let a = first_non_blank(s);
    if a == len {
        proof {
            lemma_trim_all_blank(s@);
            reveal_strlit("");
            assert(""@ =~= Seq::<char>::empty());
        }
        return "";
    }
    let b = last_non_blank(s, a);
    proof {
        lemma_trim_range(s@, a as int, b as int);
    }
    s.substring_char(a, b + 1)
}


/// Decides whether a text is blank: nothing is left of it after
/// trimming.  A blank clipboard text is not worth translating.
pub fn is_blank_text(s: &str) -> (r: bool)
    ensures
        r == (spec_trim(s@).len() == 0),
{
    trim(s).unicode_len() == 0
}


/// The two characters are equal up to ASCII case: identical, or the same
/// letter with one side folded to the other ASCII case.
pub open spec fn eq_char_ci(a: char, b: char) -> bool {
    a == b || (a as u32 + 32 == b as u32 && 'A' as u32 <= a as u32 && a as u32 <= 'Z' as u32) || (
    b as u32 + 32 == a as u32 && 'A' as u32 <= b as u32 && b as u32 <= 'Z' as u32)
}

/// The two sequences are equal up to ASCII case, character by character.
pub open spec fn eq_ci(a: Seq<char>, b: Seq<char>) -> bool {
    a.len() == b.len() && (forall|i: int| 0 <= i < a.len() ==> eq_char_ci(a[i], b[i]))
}

/// Decides [`eq_char_ci`].
fn char_eq_ci(a: char, b: char) -> (r: bool)
    ensures
        r == eq_char_ci(a, b),
{
    if a == b {
        return true;
    }
    let au = a as u32;
    let bu = b as u32;
    (bu >= 32 && au == bu - 32 && 'A' <= a && a <= 'Z') || (au >= 32 && bu == au - 32 && 'A' <= b
        && b <= 'Z')
}

/// String equality up to ASCII case, decided character by character.
pub fn str_eq_ci(a: &str, b: &str) -> (r: bool)
    ensures
        r == eq_ci(a@, b@),
{
    let alen = a.unicode_len();
    let blen = b.unicode_len();
    if alen != blen {
        return false;
    }
    let mut i: usize = 0;
    while i < alen
        invariant
            alen == a@.len(),
            blen == b@.len(),
            alen == blen,
            i <= alen,
            forall|j: int| 0 <= j < i ==> eq_char_ci(a@[j], b@[j]),
        decreases alen - i,
    {
        if !char_eq_ci(a.get_char(i), b.get_char(i)) {
            return false;
        }
        i += 1;
    }
    true
}

} // verus!

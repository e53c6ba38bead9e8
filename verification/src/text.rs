//! Text building blocks: decimal rendering, string comparison and the few
//! standard-library and outside calls whose results the library reasons about.
use vstd::prelude::*;

verus! {

/// The decimal digits of `n`, most significant first, without leading zeros.
pub open spec fn decimal(n: nat) -> Seq<char>
    decreases n,
{
    if n < 10 {
        seq![digit_char(n)]
    } else {
        decimal(n / 10).push(digit_char(n % 10))
    }
}

pub open spec fn digit_char(d: nat) -> char {
    if d == 0 { '0' } else if d == 1 { '1' } else if d == 2 { '2' } else if d == 3 { '3' }
    else if d == 4 { '4' } else if d == 5 { '5' } else if d == 6 { '6' } else if d == 7 { '7' }
    else if d == 8 { '8' } else { '9' }
}

/// Appends one character. Calls `String::push`.
#[verifier::external_body]
pub(crate) fn push_char(s: &mut String, c: char)
    ensures
        final(s)@ == old(s)@.push(c),
{
    s.push(c);
}

/// Compares two strings by content. Calls `<str as PartialEq>::eq`.
#[verifier::external_body]
pub(crate) fn str_eq(a: &str, b: &str) -> (equal: bool)
    ensures
        equal == (a@ == b@),
{
    a == b
}

fn digit(d: u64) -> (c: char)
    requires
        d < 10,
    ensures
        c == digit_char(d as nat),
{
    if d == 0 { '0' } else if d == 1 { '1' } else if d == 2 { '2' } else if d == 3 { '3' }
    else if d == 4 { '4' } else if d == 5 { '5' } else if d == 6 { '6' } else if d == 7 { '7' }
    else if d == 8 { '8' } else { '9' }
}

/// Appends the decimal form of `n`.
pub fn push_decimal(s: &mut String, n: u64)
    ensures
        final(s)@ == old(s)@ + decimal(n as nat),
    decreases n,
{
    if n < 10 {
        push_char(s, digit(n));
        assert(decimal(n as nat) =~= seq![digit_char(n as nat)]);
    } else {
        push_decimal(s, n / 10);
        push_char(s, digit(n % 10));
        assert(decimal(n as nat) =~= decimal((n / 10) as nat).push(digit_char((n % 10) as nat)));
    }
}

/// The decimal form of `n` as a new string.
pub fn decimal_string(n: u64) -> (s: String)
    ensures
        s@ == decimal(n as nat),
{
    let mut s = String::new();
    push_decimal(&mut s, n);
    assert(s@ =~= decimal(n as nat));
    s
}

/// The characters with the Unicode `White_Space` property, which
/// `char::is_whitespace` tests.
pub open spec fn is_white_space(c: char) -> bool {
    ('\u{9}' <= c && c <= '\u{d}') || c == ' ' || c == '\u{85}' || c == '\u{a0}' || c == '\u{1680}'
        || ('\u{2000}' <= c && c <= '\u{200a}') || c == '\u{2028}' || c == '\u{2029}' || c == '\u{202f}'
        || c == '\u{205f}' || c == '\u{3000}'
}

/// The text without its leading whitespace.
pub open spec fn trim_start_spec(s: Seq<char>) -> Seq<char>
    decreases s.len(),
{
    if s.len() > 0 && is_white_space(s[0]) { trim_start_spec(s.drop_first()) } else { s }
}

/// The text without its trailing whitespace.
pub open spec fn trim_end_spec(s: Seq<char>) -> Seq<char>
    decreases s.len(),
{
    if s.len() > 0 && is_white_space(s.last()) { trim_end_spec(s.drop_last()) } else { s }
}

/// The text without leading and trailing whitespace.
pub open spec fn spec_trim(s: Seq<char>) -> Seq<char> {
    trim_end_spec(trim_start_spec(s))
}

/// Removes leading and trailing whitespace. Calls `str::trim`, which std
/// documents as removing the leading and trailing characters with the
/// `White_Space` property.
#[verifier::external_body]
pub(crate) fn trim_text(s: &str) -> (t: &str)
    ensures
        t@ == spec_trim(s@),
{
    s.trim()
}

/// Unicode lower-case mapping, as `str::to_lowercase` defines it.
pub uninterp spec fn spec_lowercase(s: Seq<char>) -> Seq<char>;

/// Lower-cases text. Calls `str::to_lowercase`; the result is named by
/// `spec_lowercase`, a function of the text alone.
#[verifier::external_body]
pub(crate) fn lowercase_text(s: &str) -> (t: String)
    ensures
        t@ == spec_lowercase(s@),
{
    s.to_lowercase()
}

/// The characters of an optional text.
pub open spec fn opt_view(s: Option<String>) -> Option<Seq<char>> {
    match s {
        Some(t) => Some(t@),
        None => None,
    }
}

/// ASCII upper-case letters map to lower case; every other character stays.
pub open spec fn ascii_lower(c: char) -> char {
    if 'A' <= c && c <= 'Z' { ((c as u32) + 32) as char } else { c }
}

fn ascii_lower_char(c: char) -> (d: char)
    ensures
        d == ascii_lower(c),
{
    if 'A' <= c && c <= 'Z' {
        let b: u8 = c as u8;
        assert(b as u32 == c as u32);
        (b + 32) as char
    } else {
        c
    }
}

/// Lower-cases ASCII letters only, as `str::to_ascii_lowercase` does.
pub(crate) fn ascii_lowercase(s: &str) -> (t: String)
    ensures
        t@ == s@.map_values(|c: char| ascii_lower(c)),
{
    let v = crate::codex_config::chars_of(s);
    let mut t = String::new();
    let mut i: usize = 0;
    while i < v.len()
        invariant
            i <= v@.len(),
            v@ == s@,
            t@ == v@.subrange(0, i as int).map_values(|c: char| ascii_lower(c)),
        decreases v.len() - i,
    {
        push_char(&mut t, ascii_lower_char(v[i]));
        i = i + 1;
        assert(t@ =~= v@.subrange(0, i as int).map_values(|c: char| ascii_lower(c)));
    }
    assert(v@.subrange(0, v@.len() as int) =~= v@);
    t
}

/// Whether the text ends in a line feed.
pub(crate) fn ends_with_newline(s: &str) -> (ends: bool)
    ensures
        ends == (s@.len() > 0 && s@.last() == '\n'),
{
    let v = crate::codex_config::chars_of(s);
    v.len() > 0 && v[v.len() - 1] == '\n'
}

/// Trims surrounding whitespace and keeps the text only when something is left.
pub open spec fn cleaned(v: Option<Seq<char>>) -> Option<Seq<char>> {
    match v {
        Some(t) => if spec_trim(t).len() > 0 { Some(spec_trim(t)) } else { None },
        None => None,
    }
}

/// `clean` on an optional string.
pub fn clean(v: &Option<String>) -> (c: Option<String>)
    ensures
        opt_view(c) == cleaned(opt_view(*v)),
{
    match v {
        Some(t) => {
            let x = trim_text(t.as_str());
            if x.is_empty() {
                None
            } else {
                Some(x.to_owned())
            }
        },
        None => None,
    }
}

/// Whether `pat` occurs in `s` as a run of consecutive characters.
pub open spec fn spec_contains(s: Seq<char>, pat: Seq<char>) -> bool {
    exists|i: int| 0 <= i && i + pat.len() <= s.len() && #[trigger] s.subrange(i, i + pat.len()) == pat
}

fn matches_at(v: &Vec<char>, p: &Vec<char>, i: usize) -> (m: bool)
    requires
        i + p@.len() <= v@.len(),
    ensures
        m == (v@.subrange(i as int, i + p@.len()) == p@),
{
    let mut k: usize = 0;
    while k < p.len()
        invariant
            k <= p@.len(),
            i + p.len() <= v.len(),
            forall|j: int| 0 <= j < k ==> v@[i + j] == p@[j],
        decreases p.len() - k,
    {
        if v[i + k] != p[k] {
            assert(v@.subrange(i as int, i + p@.len())[k as int] != p@[k as int]);
            return false;
        }
        k = k + 1;
    }
    assert(v@.subrange(i as int, i + p@.len()) =~= p@);
    true
}

/// Whether `pat` occurs in `s` as a run of consecutive characters, as
/// `str::contains` with a string pattern decides.
pub(crate) fn contains_text(s: &str, pat: &str) -> (found: bool)
    ensures
        found == spec_contains(s@, pat@),
{
    let v = crate::codex_config::chars_of(s);
    let p = crate::codex_config::chars_of(pat);
    if p.len() > v.len() {
        return false;
    }
    let last = v.len() - p.len();
    let mut i: usize = 0;
    loop
        invariant
            i <= last,
            last + p@.len() == v@.len(),
            v@ == s@ && p@ == pat@,
            forall|j: int| 0 <= j < i ==> #[trigger] v@.subrange(j, j + p@.len()) != p@,
        decreases last - i,
    {
        if matches_at(&v, &p, i) {
            return true;
        }
        if i == last {
            assert forall|j: int| 0 <= j && j + pat@.len() <= s@.len() implies #[trigger] s@.subrange(j, j + pat@.len()) != pat@ by {
                assert(j <= last);
            }
            return false;
        }
        i = i + 1;
    }
}

/// `s` without every trailing `c`.
pub open spec fn strip_trailing(s: Seq<char>, c: char) -> Seq<char>
    decreases s.len(),
{
    if s.len() > 0 && s.last() == c { strip_trailing(s.drop_last(), c) } else { s }
}

proof fn lemma_strip_prefix(s: Seq<char>, c: char, end: int)
    requires
        0 <= end <= s.len(),
        forall|j: int| end <= j < s.len() ==> s[j] == c,
    ensures
        strip_trailing(s, c) == strip_trailing(s.subrange(0, end), c),
    decreases s.len() - end,
{
    if end < s.len() {
        assert(s.drop_last() =~= s.subrange(0, s.len() - 1));
        lemma_strip_prefix(s.subrange(0, s.len() - 1), c, end);
        assert(s.subrange(0, s.len() - 1).subrange(0, end) =~= s.subrange(0, end));
    } else {
        assert(s.subrange(0, end) =~= s);
    }
}

/// Removes every trailing occurrence of a character, as `str::trim_end_matches`
/// does with a `char` pattern.
pub(crate) fn trim_trailing(s: &str, c: char) -> (t: String)
    ensures
        t@ == strip_trailing(s@, c),
{
    let v = crate::codex_config::chars_of(s);
    let mut end: usize = v.len();
    while end > 0 && v[end - 1] == c
        invariant
            end <= v@.len(),
            v@ == s@,
            forall|j: int| end <= j < v@.len() ==> v@[j] == c,
        decreases end,
    {
        end = end - 1;
    }
    proof {
        lemma_strip_prefix(v@, c, end as int);
        let r = v@.subrange(0, end as int);
        if end > 0 {
            assert(r.last() != c);
        }
    }
    crate::codex_config::string_of(&v, 0, end)
}

/// Compares two texts ignoring ASCII case, as `str::eq_ignore_ascii_case`
/// does: the same as comparing their ASCII lower-case forms.
pub(crate) fn eq_ignore_ascii_case(a: &str, b: &str) -> (equal: bool)
    ensures
        equal == (a@.map_values(|c: char| ascii_lower(c)) == b@.map_values(|c: char| ascii_lower(c))),
{
    let x = crate::codex_config::chars_of(a);
    let y = crate::codex_config::chars_of(b);
    if x.len() != y.len() {
        assert(a@.map_values(|c: char| ascii_lower(c)).len() != b@.map_values(|c: char| ascii_lower(c)).len());
        return false;
    }
    let mut i: usize = 0;
    while i < x.len()
        invariant
            i <= x@.len(),
            x@.len() == y@.len(),
            x@ == a@ && y@ == b@,
            forall|j: int| 0 <= j < i ==> ascii_lower(#[trigger] x@[j]) == ascii_lower(y@[j]),
        decreases x.len() - i,
    {
        if ascii_lower_char(x[i]) != ascii_lower_char(y[i]) {
            assert(a@.map_values(|c: char| ascii_lower(c))[i as int] != b@.map_values(|c: char| ascii_lower(c))[i as int]);
            return false;
        }
        i = i + 1;
    }
    assert(a@.map_values(|c: char| ascii_lower(c)) =~= b@.map_values(|c: char| ascii_lower(c)));
    true
}

} // verus!

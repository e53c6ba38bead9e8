//! Whether the local Codex configuration points the ChatGPT backend anywhere
//! but the official service. Such a login stays with the Codex app: its token
//! is never sent to a configurable destination.
use vstd::prelude::*;
use vstd::string::*;
use vstd::std_specs::iter::IteratorSpec;
use crate::text::{spec_trim, strip_trailing};

verus! {

broadcast use vstd::string::axiom_spec_iter, vstd::string::next_postcondition;

/// The configuration file as read: absent, unreadable (or not text, or over
/// the size limit of 256 KiB), or its text.
pub enum ConfigRead {
    Missing,
    Unreadable,
    Text(String),
}

/// The characters before the first `#` of a line, and whether one was met.
pub open spec fn before_hash(s: Seq<char>) -> (Seq<char>, bool)
    decreases s.len(),
{
    if s.len() == 0 {
        (s, false)
    } else {
        let (p, seen) = before_hash(s.drop_last());
        if seen || s.last() == '#' { (p, true) } else { (p.push(s.last()), false) }
    }
}

/// `s` split at its first `=`.
pub open spec fn split_eq(s: Seq<char>) -> Option<(Seq<char>, Seq<char>)>
    decreases s.len(),
{
    if s.len() == 0 {
        None
    } else if s[0] == '=' {
        Some((Seq::empty(), s.drop_first()))
    } else {
        match split_eq(s.drop_first()) {
            Some((k, v)) => Some((seq![s[0]] + k, v)),
            None => None,
        }
    }
}

pub open spec fn is_quote(c: char) -> bool {
    c == '\'' || c == '"'
}

pub open spec fn strip_leading_quotes(s: Seq<char>) -> Seq<char>
    decreases s.len(),
{
    if s.len() > 0 && is_quote(s[0]) { strip_leading_quotes(s.drop_first()) } else { s }
}

pub open spec fn strip_trailing_quotes(s: Seq<char>) -> Seq<char>
    decreases s.len(),
{
    if s.len() > 0 && is_quote(s.last()) { strip_trailing_quotes(s.drop_last()) } else { s }
}

/// `str::trim_matches` with the two quote characters.
pub open spec fn strip_quotes(s: Seq<char>) -> Seq<char> {
    strip_trailing_quotes(strip_leading_quotes(s))
}

/// A line that sets `chatgpt_base_url` to anything but the official service
/// (trailing slashes aside), outside comments and quotes.
pub open spec fn custom_code(code: Seq<char>) -> bool {
    match split_eq(spec_trim(code)) {
        None => false,
        Some((key, value)) => strip_quotes(spec_trim(key)) == "chatgpt_base_url"@ && {
            let url = strip_trailing(strip_quotes(spec_trim(value)), '/');
            url != "https://chatgpt.com"@ && url != "https://chatgpt.com/backend-api"@
        },
    }
}

/// Some line of the text is such a setting. Lines are the runs between line
/// feeds; a carriage return before a line feed is whitespace that trimming
/// removes.
pub open spec fn custom_text(s: Seq<char>, line: Seq<char>) -> bool
    decreases s.len(),
{
    if s.len() == 0 {
        custom_code(before_hash(line).0)
    } else if s[0] == '\n' {
        custom_code(before_hash(line).0) || custom_text(s.drop_first(), Seq::empty())
    } else {
        custom_text(s.drop_first(), line.push(s[0]))
    }
}

/// An absent file keeps the official service; an unreadable one is treated
/// as custom.
pub open spec fn custom_backend(config: ConfigRead) -> bool {
    match config {
        ConfigRead::Missing => false,
        ConfigRead::Unreadable => true,
        ConfigRead::Text(t) => custom_text(t@, Seq::empty()),
    }
}

pub fn chars_of(s: &str) -> (v: Vec<char>)
    ensures
        v@ == s@,
{
    let ghost all = s@;
    let mut v: Vec<char> = Vec::new();
    let mut chars = s.chars();
    let ghost mut i: int = 0;
    loop
        invariant
            all == s@,
            0 <= i <= all.len(),
            chars.remaining() == all.subrange(i, all.len() as int),
            v@ == all.subrange(0, i),
        decreases all.len() - i,
    {
        let ghost before = chars.remaining();
        match chars.next() {
            None => {
                assert(all.subrange(0, i) =~= all);
                return v;
            },
            Some(c) => {
                proof {
                    assert(before.len() > 0);
                    assert(c == all[i]);
                    assert(chars.remaining() =~= all.subrange(i + 1, all.len() as int));
                }
                v.push(c);
                proof {
                    assert(v@ =~= all.subrange(0, i + 1));
                    i = i + 1;
                }
            },
        }
    }
}

pub(crate) fn string_of(v: &Vec<char>, from: usize, to: usize) -> (s: String)
    requires
        from <= to <= v@.len(),
    ensures
        s@ == v@.subrange(from as int, to as int),
{
    let mut s = String::new();
    let mut i: usize = from;
    while i < to
        invariant
            from <= i <= to,
            to <= v@.len(),
            s@ == v@.subrange(from as int, i as int),
        decreases to - i,
    {
        crate::text::push_char(&mut s, v[i]);
        i = i + 1;
        assert(s@ =~= v@.subrange(from as int, i as int));
    }
    s
}

proof fn lemma_split_eq(s: Seq<char>, i: int)
    requires
        0 <= i <= s.len(),
        forall|j: int| 0 <= j < i ==> s[j] != '=',
    ensures
        split_eq(s) == (match split_eq(s.subrange(i, s.len() as int)) {
            Some((k, v)) => Some((s.subrange(0, i) + k, v)),
            None => None,
        }),
    decreases i,
{
    if i > 0 {
        lemma_split_eq(s.drop_first(), i - 1);
        assert(s.drop_first().subrange(i - 1, s.drop_first().len() as int) =~= s.subrange(i, s.len() as int));
        assert forall|k: Seq<char>| seq![s[0]] + (s.drop_first().subrange(0, i - 1) + k) =~= s.subrange(0, i) + k by {}
    } else {
        assert(s.subrange(0, s.len() as int) =~= s);
        assert forall|k: Seq<char>| s.subrange(0, 0) + k =~= k by {}
    }
}

fn split_at_eq(t: &str) -> (r: Option<(String, String)>)
    ensures
        match r {
            Some((k, v)) => split_eq(t@) == Some((k@, v@)),
            None => split_eq(t@) is None,
        },
{
    let v = chars_of(t);
    let mut i: usize = 0;
    while i < v.len()
        invariant
            v@ == t@,
            i <= v@.len(),
            forall|j: int| 0 <= j < i ==> v@[j] != '=',
        decreases v.len() - i,
    {
        if v[i] == '=' {
            proof {
                lemma_split_eq(t@, i as int);
                assert(t@.subrange(i as int, t@.len() as int)[0] == '=');
                assert(t@.subrange(i as int, t@.len() as int).drop_first() =~= t@.subrange(i + 1, t@.len() as int));
            }
            return Some((string_of(&v, 0, i), string_of(&v, i + 1, v.len())));
        }
        i = i + 1;
    }
    proof {
        lemma_split_eq(t@, t@.len() as int);
        assert(t@.subrange(t@.len() as int, t@.len() as int).len() == 0);
    }
    None
}

proof fn lemma_leading(s: Seq<char>, i: int)
    requires
        0 <= i <= s.len(),
        forall|j: int| 0 <= j < i ==> is_quote(#[trigger] s[j]),
    ensures
        strip_leading_quotes(s) == strip_leading_quotes(s.subrange(i, s.len() as int)),
    decreases i,
{
    if i > 0 {
        assert(s.drop_first().subrange(i - 1, s.drop_first().len() as int) =~= s.subrange(i, s.len() as int));
        assert forall|j: int| 0 <= j < i - 1 implies is_quote(#[trigger] s.drop_first()[j]) by {
            assert(s.drop_first()[j] == s[j + 1]);
        }
        lemma_leading(s.drop_first(), i - 1);
    } else {
        assert(s.subrange(0, s.len() as int) =~= s);
    }
}

proof fn lemma_trailing(s: Seq<char>, n: int)
    requires
        0 <= n <= s.len(),
        forall|j: int| n <= j < s.len() ==> is_quote(#[trigger] s[j]),
    ensures
        strip_trailing_quotes(s) == strip_trailing_quotes(s.subrange(0, n)),
    decreases s.len() - n,
{
    if s.len() > n {
        assert forall|j: int| n <= j < s.drop_last().len() implies is_quote(#[trigger] s.drop_last()[j]) by {
            assert(s.drop_last()[j] == s[j]);
        }
        assert(s[s.len() - 1] == s.last());
        lemma_trailing(s.drop_last(), n);
        assert(s.drop_last().subrange(0, n) =~= s.subrange(0, n));
    } else {
        assert(s.subrange(0, n) =~= s);
    }
}

fn quotes_stripped(t: &str) -> (r: String)
    ensures
        r@ == strip_quotes(t@),
{
    let v = chars_of(t);
    let mut start: usize = 0;
    while start < v.len() && (v[start] == '\'' || v[start] == '"')
        invariant
            v@ == t@,
            start <= v@.len(),
            forall|j: int| 0 <= j < start ==> is_quote(#[trigger] v@[j]),
        decreases v.len() - start,
    {
        start = start + 1;
    }
    proof {
        lemma_leading(t@, start as int);
    }
    let ghost rest = t@.subrange(start as int, t@.len() as int);
    assert(strip_leading_quotes(rest) == rest) by {
        if rest.len() > 0 {
            assert(rest[0] == v@[start as int]);
        }
    }
    let mut end: usize = v.len();
    while end > start && (v[end - 1] == '\'' || v[end - 1] == '"')
        invariant
            v@ == t@,
            start <= end <= v@.len(),
            forall|j: int| end <= j < v@.len() ==> is_quote(#[trigger] v@[j]),
        decreases end - start,
    {
        end = end - 1;
    }
    proof {
        assert forall|j: int| (end - start) <= j < rest.len() implies is_quote(#[trigger] rest[j]) by {
            assert(rest[j] == v@[start + j]);
        }
        lemma_trailing(rest, end - start);
        assert(rest.subrange(0, end - start) =~= t@.subrange(start as int, end as int));
        let kept = t@.subrange(start as int, end as int);
        if kept.len() > 0 {
            assert(kept.last() == v@[end - 1]);
        }
    }
    string_of(&v, start, end)
}

fn custom_code_of(code: &str) -> (r: bool)
    ensures
        r == custom_code(code@),
{
    let t = crate::text::trim_text(code);
    match split_at_eq(t) {
        None => false,
        Some((key, value)) => {
            let k = quotes_stripped(crate::text::trim_text(key.as_str()));
            if !crate::text::str_eq(k.as_str(), "chatgpt_base_url") {
                return false;
            }
            let v = quotes_stripped(crate::text::trim_text(value.as_str()));
            let url = crate::text::trim_trailing(v.as_str(), '/');
            !crate::text::str_eq(url.as_str(), "https://chatgpt.com") && !crate::text::str_eq(url.as_str(), "https://chatgpt.com/backend-api")
        },
    }
}

proof fn lemma_custom_text_step(s: Seq<char>, i: int, line: Seq<char>)
    requires
        0 <= i < s.len(),
    ensures
        custom_text(s.subrange(i, s.len() as int), line) == (if s[i] == '\n' {
            custom_code(before_hash(line).0) || custom_text(s.subrange(i + 1, s.len() as int), Seq::empty())
        } else {
            custom_text(s.subrange(i + 1, s.len() as int), line.push(s[i]))
        }),
{
    assert(s.subrange(i, s.len() as int)[0] == s[i]);
    assert(s.subrange(i, s.len() as int).drop_first() =~= s.subrange(i + 1, s.len() as int));
}

/// Whether the configured backend is not the official service.
pub fn uses_custom_backend(config: &ConfigRead) -> (custom: bool)
    ensures
        custom == custom_backend(*config),
{
    let text = match config {
        ConfigRead::Missing => { return false; },
        ConfigRead::Unreadable => { return true; },
        ConfigRead::Text(t) => t,
    };
    let v = chars_of(text.as_str());
    let ghost all = text@;
    let mut line = String::new();
    let mut code = String::new();
    let mut hashed = false;
    let mut i: usize = 0;
    assert(all.subrange(0, all.len() as int) =~= all);
    while i < v.len()
        invariant
            v@ == all,
            all == text@,
            *config == ConfigRead::Text(*text),
            i <= all.len(),
            (code@, hashed) == before_hash(line@),
            custom_text(all, Seq::empty()) == custom_text(all.subrange(i as int, all.len() as int), line@),
        decreases v.len() - i,
    {
        proof { lemma_custom_text_step(all, i as int, line@); }
        let c = v[i];
        if c == '\n' {
            if custom_code_of(code.as_str()) {
                return true;
            }
            line = String::new();
            code = String::new();
            hashed = false;
            assert(before_hash(Seq::<char>::empty()) == (Seq::<char>::empty(), false));
        } else {
            let ghost old_line = line@;
            crate::text::push_char(&mut line, c);
            if !hashed && c != '#' {
                crate::text::push_char(&mut code, c);
            } else {
                hashed = true;
            }
            assert(line@.drop_last() =~= old_line);
        }
        i = i + 1;
    }
    assert(all.subrange(all.len() as int, all.len() as int) =~= Seq::<char>::empty());
    custom_code_of(code.as_str())
}

} // verus!

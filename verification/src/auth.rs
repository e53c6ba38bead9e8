//! The Codex login file, read without keeping anything but what the requests
//! need: a personal access token, an OAuth login with its hints, and whether
//! an API key is configured. Token claims are unverified hints, never
//! authentication decisions.
use base64::Engine;
use vstd::prelude::*;
use vstd::string::*;
use crate::json::{Json, get, get_opt, present, as_text, as_i64, deref_opt, get_member, get_in, text_of, i64_of};
use crate::quota::{nonempty_text, opt_text_of};
use crate::strategy::{CredentialLoad, needs_refresh_at};
use crate::time::spec_rfc3339;

verus! {

/// An OAuth login: its token and the hints read from the file and its claims.
pub struct OAuthCredential {
    pub access_token: String,
    pub account_id: Option<String>,
    pub email: Option<String>,
    pub plan: Option<String>,
    pub expires_at: Option<i64>,
    pub last_refresh: Option<i64>,
}

pub struct Credentials {
    pub pat: Option<String>,
    pub oauth: Option<OAuthCredential>,
    pub is_api_key: bool,
}

/// Why the login file could not be used.
#[derive(Clone, Copy, Debug, PartialEq, Eq, Structural)]
pub enum CredentialError {
    Missing,
    Unreadable,
    Invalid,
}

/// The first non-blank of a member and its alternative spelling.
pub open spec fn field(value: Option<Json>, snake: Seq<char>, camel: Seq<char>) -> Option<Seq<char>> {
    let a = nonempty_text(get_opt(value, snake));
    if a is Some { a } else { nonempty_text(get_opt(value, camel)) }
}

fn field_of(value: Option<&Json>, snake: &str, camel: &str) -> (r: Option<String>)
    ensures
        opt_text_of(r) == field(deref_opt(value), snake@, camel@),
{
    match nonempty(get_in(value, snake)) {
        Some(a) => Some(a),
        None => nonempty(get_in(value, camel)),
    }
}

/// A member's text, trimmed, where it is not blank.
pub fn nonempty(value: Option<&Json>) -> (r: Option<String>)
    ensures
        opt_text_of(r) == nonempty_text(deref_opt(value)),
{
    match text_of(value) {
        Some(t) => {
            let x = crate::text::trim_text(t);
            if x.is_empty() { None } else { Some(String::from_str(x)) }
        },
        None => None,
    }
}

/// The texts between the dots of a token.
pub open spec fn dot_parts(s: Seq<char>) -> Seq<Seq<char>>
    decreases s.len(),
{
    if s.len() == 0 {
        seq![Seq::empty()]
    } else {
        let parts = dot_parts(s.drop_last());
        if s.last() == '.' {
            parts.push(Seq::empty())
        } else {
            parts.update(parts.len() - 1, parts.last().push(s.last()))
        }
    }
}

proof fn lemma_dot_parts_nonempty(s: Seq<char>)
    ensures
        dot_parts(s).len() >= 1,
    decreases s.len(),
{
    if s.len() > 0 {
        lemma_dot_parts_nonempty(s.drop_last());
    }
}

/// The encoded claims of a token: its middle part, where the token has
/// exactly three non-empty parts.
pub open spec fn claims_part(token: Seq<char>) -> Option<Seq<char>> {
    let parts = dot_parts(token);
    if parts.len() == 3 && parts[0].len() > 0 && parts[1].len() > 0 && parts[2].len() > 0 {
        Some(parts[1])
    } else {
        None
    }
}

pub fn claims_segment(token: &str) -> (r: Option<String>)
    ensures
        opt_text_of(r) == claims_part(token@),
{
    let chars = crate::codex_config::chars_of(token);
    let mut parts: Vec<Vec<char>> = Vec::new();
    parts.push(Vec::new());
    let mut i: usize = 0;
    assert(chars@.subrange(0, 0) =~= Seq::<char>::empty());
    assert(parts@.map_values(|p: Vec<char>| p@) =~= dot_parts(Seq::<char>::empty()));
    while i < chars.len()
        invariant
            i <= chars@.len(),
            chars@ == token@,
            parts@.len() >= 1,
            parts@.map_values(|p: Vec<char>| p@) == dot_parts(chars@.subrange(0, i as int)),
        decreases chars.len() - i,
    {
        let c = chars[i];
        let ghost before = parts@.map_values(|p: Vec<char>| p@);
        proof {
            assert(chars@.subrange(0, i + 1).drop_last() =~= chars@.subrange(0, i as int));
            assert(chars@.subrange(0, i + 1).last() == c);
        }
        if c == '.' {
            parts.push(Vec::new());
            assert(parts@.map_values(|p: Vec<char>| p@) =~= before.push(Seq::empty()));
        } else {
            let last = parts.len() - 1;
            let mut part = parts.pop().unwrap();
            part.push(c);
            parts.push(part);
            assert(parts@.map_values(|p: Vec<char>| p@) =~= before.update(last as int, before[last as int].push(c)));
        }
        i = i + 1;
    }
    assert(chars@.subrange(0, chars@.len() as int) =~= chars@);
    if parts.len() == 3 && parts[0].len() > 0 && parts[1].len() > 0 && parts[2].len() > 0 {
        let middle = &parts[1];
        let mut s = String::new();
        let mut j: usize = 0;
        while j < middle.len()
            invariant
                j <= middle@.len(),
                s@ == middle@.subrange(0, j as int),
            decreases middle.len() - j,
        {
            crate::text::push_char(&mut s, middle[j]);
            j = j + 1;
            assert(s@ =~= middle@.subrange(0, j as int));
        }
        assert(middle@.subrange(0, middle@.len() as int) =~= middle@);
        Some(s)
    } else {
        None
    }
}

/// The account id a token's claims name: directly, under the auth
/// namespace, or as the first organization with a non-blank id.
pub open spec fn claims_account(claims: Json) -> Option<Seq<char>> {
    let direct = nonempty_text(get(claims, "chatgpt_account_id"@));
    let nested = nonempty_text(get_opt(get(claims, "https://api.openai.com/auth"@), "chatgpt_account_id"@));
    if direct is Some {
        direct
    } else if nested is Some {
        nested
    } else {
        match get(claims, "organizations"@) {
            Some(Json::Array(orgs)) => first_org(orgs@),
            _ => None,
        }
    }
}

pub open spec fn first_org(orgs: Seq<Json>) -> Option<Seq<char>>
    decreases orgs.len(),
{
    if orgs.len() == 0 {
        None
    } else {
        let id = nonempty_text(get(orgs[0], "id"@));
        if id is Some { id } else { first_org(orgs.drop_first()) }
    }
}

pub fn account_id_from_claims(claims: &Json) -> (r: Option<String>)
    ensures
        opt_text_of(r) == claims_account(*claims),
{
    if let Some(a) = nonempty(get_member(claims, "chatgpt_account_id")) {
        return Some(a);
    }
    if let Some(a) = nonempty(get_in(get_member(claims, "https://api.openai.com/auth"), "chatgpt_account_id")) {
        return Some(a);
    }
    match get_member(claims, "organizations") {
        Some(Json::Array(orgs)) => {
            let mut i: usize = 0;
            assert(orgs@.subrange(0, orgs@.len() as int) =~= orgs@);
            while i < orgs.len()
                invariant
                    i <= orgs@.len(),
                    nonempty_text(get(*claims, "chatgpt_account_id"@)) is None,
                    nonempty_text(get_opt(get(*claims, "https://api.openai.com/auth"@), "chatgpt_account_id"@)) is None,
                    get(*claims, "organizations"@) == Some(Json::Array(*orgs)),
                    first_org(orgs@) == first_org(orgs@.subrange(i as int, orgs@.len() as int)),
                decreases orgs.len() - i,
            {
                assert(orgs@.subrange(i as int, orgs@.len() as int)[0] == orgs@[i as int]);
                if let Some(id) = nonempty(get_member(&orgs[i], "id")) {
                    return Some(id);
                }
                assert(orgs@.subrange(i as int, orgs@.len() as int).drop_first() =~= orgs@.subrange(i + 1, orgs@.len() as int));
                i = i + 1;
            }
            None
        },
        _ => None,
    }
}

/// The tokens whose claims a login may carry: the id token and the access
/// token, where present.
pub fn claim_tokens(value: &Json) -> (r: (Option<String>, Option<String>))
    ensures
        opt_text_of(r.0) == field(get(*value, "tokens"@), "id_token"@, "idToken"@),
        opt_text_of(r.1) == field(get(*value, "tokens"@), "access_token"@, "accessToken"@),
{
    let tokens = get_member(value, "tokens");
    (field_of(tokens, "id_token", "idToken"), field_of(tokens, "access_token", "accessToken"))
}

pub open spec fn claims_email(c: Option<Json>) -> Option<Seq<char>> {
    match c {
        Some(claims) => {
            let direct = nonempty_text(get(claims, "email"@));
            if direct is Some { direct } else { nonempty_text(get_opt(get(claims, "https://api.openai.com/profile"@), "email"@)) }
        },
        None => None,
    }
}

pub open spec fn claims_plan(c: Option<Json>) -> Option<Seq<char>> {
    match c {
        Some(claims) => nonempty_text(get_opt(get(claims, "https://api.openai.com/auth"@), "chatgpt_plan_type"@)),
        None => None,
    }
}

/// The expiry a token's claims give, when it is a plausible instant.
pub open spec fn claims_expiry(c: Option<Json>) -> Option<i64> {
    match c {
        Some(claims) => match as_i64(get(claims, "exp"@)) {
            Some(e) => if 0 <= e <= 253_402_300_799 { Some(e) } else { None },
            None => None,
        },
        None => None,
    }
}

/// The last refresh: an RFC 3339 text, else a number of seconds.
pub open spec fn refresh_time(v: Option<Json>) -> Option<i64> {
    let parsed = match as_text(v) {
        Some(t) => match spec_rfc3339(t) {
            Some(at) => Some(at.secs),
            None => None,
        },
        None => None,
    };
    if parsed is Some { parsed } else { as_i64(v) }
}

pub open spec fn opt_account(file: Option<Seq<char>>, id_claims: Option<Json>, access_claims: Option<Json>) -> Option<Seq<char>> {
    if file is Some {
        file
    } else {
        let from_id = match id_claims { Some(c) => claims_account(c), None => None };
        if from_id is Some { from_id } else { match access_claims { Some(c) => claims_account(c), None => None } }
    }
}

/// Reads a login file's JSON. `id_claims` and `access_claims` are the decoded
/// claims of the tokens that `claim_tokens` names, where they decode.
pub fn parse_credentials(value: &Json, id_claims: Option<&Json>, access_claims: Option<&Json>) -> (r: Result<Credentials, CredentialError>)
    ensures
        !(*value is Object) ==> r == Err::<Credentials, CredentialError>(CredentialError::Invalid),
        *value is Object ==> (r matches Ok(c)
            && opt_text_of(c.pat) == field(Some(*value), "personal_access_token"@, "personalAccessToken"@)
            && c.is_api_key == (nonempty_text(get(*value, "OPENAI_API_KEY"@)) is Some)
            && (match field(get(*value, "tokens"@), "access_token"@, "accessToken"@) {
                None => c.oauth is None,
                Some(token) => c.oauth matches Some(o) && o.access_token@ == token
                    && opt_text_of(o.account_id) == opt_account(field(get(*value, "tokens"@), "account_id"@, "accountId"@),
                        deref_opt(id_claims), deref_opt(access_claims))
                    && opt_text_of(o.email) == claims_email(deref_opt(id_claims))
                    && opt_text_of(o.plan) == claims_plan(deref_opt(id_claims))
                    && o.expires_at == claims_expiry(deref_opt(access_claims))
                    && o.last_refresh == refresh_time(get(*value, "last_refresh"@)),
            })),
{
    if !matches!(value, Json::Object(_)) {
        return Err(CredentialError::Invalid);
    }
    let pat = field_of(Some(value), "personal_access_token", "personalAccessToken");
    let is_api_key = nonempty(get_member(value, "OPENAI_API_KEY")).is_some();
    let tokens = get_member(value, "tokens");
    let oauth = match field_of(tokens, "access_token", "accessToken") {
        None => None,
        Some(access_token) => {
            let account_id = match field_of(tokens, "account_id", "accountId") {
                Some(a) => Some(a),
                None => {
                    let from_id = match id_claims { Some(c) => account_id_from_claims(c), None => None };
                    match from_id {
                        Some(a) => Some(a),
                        None => match access_claims { Some(c) => account_id_from_claims(c), None => None },
                    }
                },
            };
            let email = match id_claims {
                Some(c) => match nonempty(get_member(c, "email")) {
                    Some(e) => Some(e),
                    None => nonempty(get_in(get_member(c, "https://api.openai.com/profile"), "email")),
                },
                None => None,
            };
            let plan = match id_claims {
                Some(c) => nonempty(get_in(get_member(c, "https://api.openai.com/auth"), "chatgpt_plan_type")),
                None => None,
            };
            let expires_at = match access_claims {
                Some(c) => match i64_of(get_member(c, "exp")) {
                    Some(e) => if 0 <= e && e <= 253_402_300_799 { Some(e) } else { None },
                    None => None,
                },
                None => None,
            };
            let refresh = get_member(value, "last_refresh");
            let parsed = match text_of(refresh) {
                Some(t) => match crate::time::parse_rfc3339(t) {
                    Some(at) => Some(at.secs),
                    None => None,
                },
                None => None,
            };
            let last_refresh = if parsed.is_some() { parsed } else { i64_of(refresh) };
            Some(OAuthCredential { access_token, account_id, email, plan, expires_at, last_refresh })
        },
    };
    Ok(Credentials { pat, oauth, is_api_key })
}

/// What the credential strategies need to know of a login at `now`.
pub fn credential_load(read: &Result<Credentials, CredentialError>, now: i64) -> (load: CredentialLoad)
    ensures
        match read {
            Err(CredentialError::Missing) => load == CredentialLoad::Missing,
            Err(CredentialError::Unreadable) => load == CredentialLoad::Unreadable,
            Err(CredentialError::Invalid) => load == CredentialLoad::Invalid,
            Ok(c) => load == (CredentialLoad::Loaded {
                pat: c.pat is Some,
                api_key: c.is_api_key,
                oauth: match c.oauth {
                    Some(o) => Some(needs_refresh_at(o.expires_at, o.last_refresh, now)),
                    None => None,
                },
            }),
        },
{
    match read {
        Err(CredentialError::Missing) => CredentialLoad::Missing,
        Err(CredentialError::Unreadable) => CredentialLoad::Unreadable,
        Err(CredentialError::Invalid) => CredentialLoad::Invalid,
        Ok(c) => CredentialLoad::Loaded {
            pat: c.pat.is_some(),
            api_key: c.is_api_key,
            oauth: match &c.oauth {
                Some(o) => Some(crate::strategy::needs_refresh(o.expires_at, o.last_refresh, now)),
                None => None,
            },
        },
    }
}

/// The bytes that base64's URL-safe engine without padding decodes from `text`.
pub uninterp spec fn spec_decode_url_safe_no_pad(text: Seq<char>) -> Option<Seq<u8>>;

/// Calls `base64::engine::general_purpose::URL_SAFE_NO_PAD.decode`; a decoding
/// error gives none. The bytes are named by `spec_decode_url_safe_no_pad`.
#[verifier::external_body]
fn decode_url_safe_no_pad(text: &str) -> (bytes: Option<Vec<u8>>)
    ensures
        match bytes {
            Some(b) => spec_decode_url_safe_no_pad(text@) == Some(b@),
            None => spec_decode_url_safe_no_pad(text@) is None,
        },
{
    base64::engine::general_purpose::URL_SAFE_NO_PAD.decode(text).ok()
}

/// The bytes that base64's URL-safe engine with padding decodes from `text`.
pub uninterp spec fn spec_decode_url_safe(text: Seq<char>) -> Option<Seq<u8>>;

/// Calls `base64::engine::general_purpose::URL_SAFE.decode`; a decoding error
/// gives none. The bytes are named by `spec_decode_url_safe`.
#[verifier::external_body]
fn decode_url_safe(text: &str) -> (bytes: Option<Vec<u8>>)
    ensures
        match bytes {
            Some(b) => spec_decode_url_safe(text@) == Some(b@),
            None => spec_decode_url_safe(text@) is None,
        },
{
    base64::engine::general_purpose::URL_SAFE.decode(text).ok()
}

/// The encoded claims of a token, decoded: unpadded first, then padded.
pub open spec fn claims_bytes_of(token: Seq<char>) -> Option<Seq<u8>> {
    match claims_part(token) {
        Some(part) => {
            let unpadded = spec_decode_url_safe_no_pad(part);
            if unpadded is Some { unpadded } else { spec_decode_url_safe(part) }
        },
        None => None,
    }
}

/// The bytes of a token's claims, to be read as JSON.
pub fn claims_bytes(token: &str) -> (bytes: Option<Vec<u8>>)
    ensures
        match bytes {
            Some(b) => claims_bytes_of(token@) == Some(b@),
            None => claims_bytes_of(token@) is None,
        },
{
    let part = match claims_segment(token) {
        Some(p) => p,
        None => { return None; },
    };
    match decode_url_safe_no_pad(part.as_str()) {
        Some(b) => Some(b),
        None => decode_url_safe(part.as_str()),
    }
}

} // verus!

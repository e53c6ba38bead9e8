//! Subscription windows of the Anthropic usage endpoint. Messages name the
//! provider by its display name, `name`.
use vstd::prelude::*;
use vstd::string::*;
use crate::account_statistics::{Amount, amount_nonnegative};
use crate::json::{Json, get, present, as_text, as_f64, deref_opt, get_member, present_value, text_of, f64_of};
use crate::models::{UsageWindow, ProviderUsage, ProviderId, ProviderStatus, DataMode};
use crate::quota::{WindowModel, window_model, windows_model, opt_text_of, first_chars, reset_text, push_window};
use crate::text::spec_trim;
use crate::time::spec_rfc3339;

verus! {

/// Why the card could not be filled: the service is unavailable to this
/// login, or something went wrong.
pub enum Failure {
    Unavailable(String),
    Error(String),
}

pub open spec fn bad_list_text(name: Seq<char>) -> Seq<char> { name + " 返回了无法识别的用量列表。"@ }
pub open spec fn bad_percent_text(name: Seq<char>) -> Seq<char> { name + " 返回了无效的用量百分比。"@ }
pub open spec fn bad_reset_text(name: Seq<char>) -> Seq<char> { name + " 返回了无效的重置时间。"@ }

pub open spec fn error_text(f: Failure) -> Option<Seq<char>> {
    match f {
        Failure::Error(m) => Some(m@),
        Failure::Unavailable(_) => None,
    }
}

/// A window's reset time: absent or null is unknown; a text must be an RFC 3339
/// instant, rendered in UTC with whole seconds; anything else is invalid.
/// `Err(())` stands for an invalid value.
pub open spec fn window_reset(v: Option<Json>) -> Result<Option<Seq<char>>, ()> {
    match v {
        None => Ok(None),
        Some(Json::Null) => Ok(None),
        Some(Json::Text(t)) => match spec_rfc3339(t@) {
            Some(at) => Ok(reset_text(Some(at.secs))),
            None => Err(()),
        },
        Some(_) => Err(()),
    }
}

/// One window: the percentage under `percent_key` must be a finite number not
/// below zero, kept as reported.
pub open spec fn window_spec(window: Json, percent_key: Seq<char>, label: Seq<char>, name: Seq<char>) -> Result<WindowModel, Seq<char>> {
    match as_f64(get(window, percent_key)) {
        Some(u) => if amount_nonnegative(u) {
            match window_reset(get(window, "resets_at"@)) {
                Ok(r) => Ok(WindowModel { label, used_percent: u, resets_at: r }),
                Err(_) => Err(bad_reset_text(name)),
            }
        } else {
            Err(bad_percent_text(name))
        },
        None => Err(bad_percent_text(name)),
    }
}

pub fn parse_window(window: &Json, percent_key: &str, label: &str, name: &str) -> (w: Result<UsageWindow, Failure>)
    ensures
        match w {
            Ok(x) => window_spec(*window, percent_key@, label@, name@) == Ok::<WindowModel, Seq<char>>(window_model(x)),
            Err(f) => window_spec(*window, percent_key@, label@, name@) matches Err(m) && error_text(f) == Some(m),
        },
{
    let used = match f64_of(get_member(window, percent_key)) {
        Some(u) => u,
        None => {
            let mut m = String::from_str(name);
            m.append(" 返回了无效的用量百分比。");
            return Err(Failure::Error(m));
        },
    };
    if !used.is_nonnegative() {
        let mut m = String::from_str(name);
        m.append(" 返回了无效的用量百分比。");
        return Err(Failure::Error(m));
    }
    let resets_at = match get_member(window, "resets_at") {
        None => None,
        Some(Json::Null) => None,
        Some(Json::Text(t)) => match crate::time::parse_rfc3339(t.as_str()) {
            Some(at) => crate::time::utc_seconds_text(at.secs),
            None => {
                let mut m = String::from_str(name);
                m.append(" 返回了无效的重置时间。");
                return Err(Failure::Error(m));
            },
        },
        Some(_) => {
            let mut m = String::from_str(name);
            m.append(" 返回了无效的重置时间。");
            return Err(Failure::Error(m));
        },
    };
    Ok(UsageWindow { label: String::from_str(label), used_percent: used, resets_at })
}

/// The label of a current server row: by its kind, after the name of the model
/// or surface it is scoped to, where one is given.
pub open spec fn row_label(window: Json) -> Seq<char> {
    let kind = match as_text(get(window, "kind"@)) {
        Some(k) => k,
        None => Seq::empty(),
    };
    let base = if kind == "session"@ {
        "5 小时用量"@
    } else if kind == "weekly_all"@ || kind == "weekly_scoped"@ {
        "每周用量"@
    } else {
        "订阅用量"@
    };
    let scope = get(window, "scope"@);
    let model = as_text(crate::json::get_opt(crate::json::get_opt(scope, "model"@), "display_name"@));
    let surface = as_text(crate::json::get_opt(crate::json::get_opt(scope, "surface"@), "display_name"@));
    let named = if (model matches Some(m) && spec_trim(m).len() > 0) {
        model
    } else if (surface matches Some(s) && spec_trim(s).len() > 0) {
        surface
    } else {
        None
    };
    match named {
        Some(n) => first_chars(n, 80) + " · "@ + base,
        None => base,
    }
}

/// The rows in order, up to the first that cannot be read.
pub open spec fn rows_spec(rows: Seq<Json>, name: Seq<char>, k: int) -> Result<Seq<WindowModel>, Seq<char>>
    decreases k,
{
    if k <= 0 {
        Ok(Seq::empty())
    } else {
        match rows_spec(rows, name, k - 1) {
            Err(e) => Err(e),
            Ok(ws) => match window_spec(rows[k - 1], "percent"@, row_label(rows[k - 1]), name) {
                Ok(w) => Ok(ws.push(w)),
                Err(e) => Err(e),
            },
        }
    }
}

/// A legacy meter: skipped where it or its utilization is absent or null.
pub open spec fn meter_step(acc: Result<Seq<WindowModel>, Seq<char>>, value: Json, key: Seq<char>, label: Seq<char>, name: Seq<char>) -> Result<Seq<WindowModel>, Seq<char>> {
    match acc {
        Err(e) => Err(e),
        Ok(ws) => match present(get(value, key)) {
            None => Ok(ws),
            Some(window) => if present(get(window, "utilization"@)) is None {
                Ok(ws)
            } else {
                match window_spec(window, "utilization"@, label, name) {
                    Ok(w) => Ok(ws.push(w)),
                    Err(e) => Err(e),
                }
            },
        },
    }
}

/// The windows of a usage response: the server's `limits` rows where present
/// (an empty list is authoritative), else the legacy meters in a fixed order.
pub open spec fn windows_spec(value: Json, name: Seq<char>) -> Result<Seq<WindowModel>, Seq<char>> {
    match present(get(value, "limits"@)) {
        Some(Json::Array(rows)) => rows_spec(rows@, name, rows@.len() as int),
        Some(_) => Err(bad_list_text(name)),
        None => {
            let a = meter_step(Ok(Seq::empty()), value, "five_hour"@, "5 小时用量"@, name);
            let b = meter_step(a, value, "seven_day"@, "每周用量"@, name);
            let c = meter_step(b, value, "seven_day_sonnet"@, "Sonnet 每周用量"@, name);
            meter_step(c, value, "seven_day_opus"@, "Opus 每周用量"@, name)
        },
    }
}

fn nonblank(v: Option<&str>) -> (r: Option<&str>)
    ensures
        match r {
            Some(x) => (match v { Some(y) => y@ == x@, None => false }) && spec_trim(x@).len() > 0,
            None => !(v matches Some(y) && spec_trim(y@).len() > 0),
        },
{
    match v {
        Some(t) => if crate::text::trim_text(t).is_empty() { None } else { Some(t) },
        None => None,
    }
}

fn label_for_row(window: &Json) -> (label: String)
    ensures
        label@ == row_label(*window),
{
    let kind = match text_of(get_member(window, "kind")) {
        Some(k) => k,
        None => "",
    };
    proof { reveal_strlit(""); }
    assert(kind@ == (match as_text(get(*window, "kind"@)) { Some(k) => k, None => Seq::empty() }));
    let base = if crate::text::str_eq(kind, "session") {
        "5 小时用量"
    } else if crate::text::str_eq(kind, "weekly_all") || crate::text::str_eq(kind, "weekly_scoped") {
        "每周用量"
    } else {
        "订阅用量"
    };
    let scope = get_member(window, "scope");
    let ghost scope_s = get(*window, "scope"@);
    let ghost model_s = as_text(crate::json::get_opt(crate::json::get_opt(scope_s, "model"@), "display_name"@));
    let ghost surface_s = as_text(crate::json::get_opt(crate::json::get_opt(scope_s, "surface"@), "display_name"@));
    assert(deref_opt(scope) == scope_s);
    let model = nonblank(text_of(crate::json::get_in(crate::json::get_in(scope, "model"), "display_name")));
    let named = match model {
        Some(m) => Some(m),
        None => nonblank(text_of(crate::json::get_in(crate::json::get_in(scope, "surface"), "display_name"))),
    };
    match named {
        Some(n) => {
            let mut label = crate::quota::display_prefix(n);
            label.append(base);
            proof { crate::quota::lemma_kept_all(n@); }
            assert(label@ =~= first_chars(n@, 80) + " · "@ + base@);
            label
        },
        None => {
            String::from_str(base)
        },
    }
}

fn meter(acc: &mut Vec<UsageWindow>, value: &Json, key: &str, label: &str, name: &str) -> (ok: Result<(), Failure>)
    ensures
        match ok {
            Ok(()) => meter_step(Ok(windows_model(old(acc)@)), *value, key@, label@, name@)
                == Ok::<Seq<WindowModel>, Seq<char>>(windows_model(final(acc)@)),
            Err(f) => meter_step(Ok(windows_model(old(acc)@)), *value, key@, label@, name@) matches Err(m)
                && error_text(f) == Some(m),
        },
{
    let window = match present_value(get_member(value, key)) {
        Some(w) => w,
        None => { return Ok(()); },
    };
    if present_value(get_member(window, "utilization")).is_none() {
        return Ok(());
    }
    match parse_window(window, "utilization", label, name) {
        Ok(w) => {
            push_window(acc, w);
            Ok(())
        },
        Err(f) => Err(f),
    }
}

/// Reads the windows of an Anthropic usage response.
pub fn parse_windows(value: &Json, name: &str) -> (r: Result<Vec<UsageWindow>, Failure>)
    ensures
        match r {
            Ok(ws) => windows_spec(*value, name@) == Ok::<Seq<WindowModel>, Seq<char>>(windows_model(ws@)),
            Err(f) => windows_spec(*value, name@) matches Err(m) && error_text(f) == Some(m),
        },
{
    let mut windows: Vec<UsageWindow> = Vec::new();
    assert(windows_model(windows@) =~= Seq::empty());
    match present_value(get_member(value, "limits")) {
        Some(Json::Array(rows)) => {
            let mut i: usize = 0;
            while i < rows.len()
                invariant
                    i <= rows@.len(),
                    windows_spec(*value, name@) == rows_spec(rows@, name@, rows@.len() as int),
                    rows_spec(rows@, name@, i as int) == Ok::<Seq<WindowModel>, Seq<char>>(windows_model(windows@)),
                decreases rows.len() - i,
            {
                let label = label_for_row(&rows[i]);
                match parse_window(&rows[i], "percent", label.as_str(), name) {
                    Ok(w) => push_window(&mut windows, w),
                    Err(f) => {
                        proof { lemma_rows_stay_failed(rows@, name@, i + 1, rows@.len() as int); }
                        return Err(f);
                    },
                }
                i = i + 1;
            }
            Ok(windows)
        },
        Some(_) => {
            let mut m = String::from_str(name);
            m.append(" 返回了无法识别的用量列表。");
            Err(Failure::Error(m))
        },
        None => {
            meter(&mut windows, value, "five_hour", "5 小时用量", name)?;
            meter(&mut windows, value, "seven_day", "每周用量", name)?;
            meter(&mut windows, value, "seven_day_sonnet", "Sonnet 每周用量", name)?;
            meter(&mut windows, value, "seven_day_opus", "Opus 每周用量", name)?;
            Ok(windows)
        },
    }
}

proof fn lemma_rows_nonnegative(rows: Seq<Json>, name: Seq<char>, k: int)
    ensures
        rows_spec(rows, name, k) matches Ok(ws) ==> forall|i: int| 0 <= i < ws.len() ==> amount_nonnegative(#[trigger] ws[i].used_percent),
    decreases k,
{
    if k > 0 {
        lemma_rows_nonnegative(rows, name, k - 1);
    }
}

/// An unreadable or missing percentage is never shown as zero usage: every
/// window read from a usage response carries a reported percentage that is a
/// finite number not below zero.
pub proof fn law_windows_carry_reported_percentages(value: Json, name: Seq<char>)
    ensures
        windows_spec(value, name) matches Ok(ws) ==> forall|i: int| 0 <= i < ws.len() ==> amount_nonnegative(#[trigger] ws[i].used_percent),
{
    match present(get(value, "limits"@)) {
        Some(Json::Array(rows)) => lemma_rows_nonnegative(rows@, name, rows@.len() as int),
        _ => {},
    }
}

proof fn lemma_rows_stay_failed(rows: Seq<Json>, name: Seq<char>, j: int, k: int)
    requires
        0 <= j <= k,
        rows_spec(rows, name, j) is Err,
    ensures
        rows_spec(rows, name, k) == rows_spec(rows, name, j),
    decreases k - j,
{
    if k > j {
        lemma_rows_stay_failed(rows, name, j, k - 1);
    }
}

/// A stored subscription login, without its token: the plan, the expiry in
/// milliseconds where known, and whether it may read the profile.
pub struct CredentialInfo {
    pub token: String,
    pub plan: String,
    pub expires_at: Option<i64>,
    pub profile_scope: bool,
}

pub open spec fn incomplete_login_text(name: Seq<char>) -> Seq<char> {
    "本机 "@ + name + " 订阅登录不完整，请在 "@ + name + " Code 中重新登录。"@
}

pub open spec fn has_profile_scope(scopes: Option<Json>) -> bool {
    match scopes {
        Some(Json::Array(items)) => exists|i: int| 0 <= i < items@.len() && as_text(Some(#[trigger] items@[i])) == Some("user:profile"@),
        _ => false,
    }
}

fn profile_scope_of(scopes: Option<&Json>) -> (r: bool)
    ensures
        r == has_profile_scope(deref_opt(scopes)),
{
    match scopes {
        Some(Json::Array(items)) => {
            let mut i: usize = 0;
            while i < items.len()
                invariant
                    i <= items@.len(),
                    deref_opt(scopes) == Some(Json::Array(*items)),
                    forall|j: int| 0 <= j < i ==> as_text(Some(#[trigger] items@[j])) != Some("user:profile"@),
                decreases items.len() - i,
            {
                if let Json::Text(t) = &items[i] {
                    if crate::text::str_eq(t.as_str(), "user:profile") {
                        assert(as_text(Some(items@[i as int])) == Some("user:profile"@));
                        return true;
                    }
                }
                i = i + 1;
            }
            false
        },
        _ => false,
    }
}

/// Reads a stored login: none without a subscription login; an OAuth entry
/// without a non-blank access token is incomplete. `name` is the provider's
/// display name.
pub fn parse_credential(value: &Json, name: &str) -> (r: Result<Option<CredentialInfo>, Failure>)
    ensures
        match present(get(*value, "claudeAiOauth"@)) {
            None => r matches Ok(None),
            Some(oauth) => match as_text(get(oauth, "accessToken"@)) {
                Some(t) => if spec_trim(t).len() > 0 {
                    r matches Ok(Some(c)) && c.token@ == t
                        && c.plan@ == crate::providers::claude_plan_text(match as_text(get(oauth, "subscriptionType"@)) {
                            Some(p) => p,
                            None => Seq::empty(),
                        })
                        && c.expires_at == crate::json::as_i64(get(oauth, "expiresAt"@))
                        && c.profile_scope == has_profile_scope(get(oauth, "scopes"@))
                } else {
                    r matches Err(Failure::Unavailable(m)) && m@ == incomplete_login_text(name@)
                },
                None => r matches Err(Failure::Unavailable(m)) && m@ == incomplete_login_text(name@),
            },
        },
{
    let oauth = match present_value(get_member(value, "claudeAiOauth")) {
        Some(o) => o,
        None => { return Ok(None); },
    };
    let token = match text_of(get_member(oauth, "accessToken")) {
        Some(t) => if crate::text::trim_text(t).is_empty() { None } else { Some(t) },
        None => None,
    };
    let token = match token {
        Some(t) => t,
        None => {
            let mut m = String::from_str("本机 ");
            m.append(name);
            m.append(" 订阅登录不完整，请在 ");
            m.append(name);
            m.append(" Code 中重新登录。");
            return Err(Failure::Unavailable(m));
        },
    };
    let empty = String::new();
    let plan = crate::providers::plan_name(match text_of(get_member(oauth, "subscriptionType")) {
        Some(p) => p,
        None => empty.as_str(),
    });
    Ok(Some(CredentialInfo {
        token: String::from_str(token),
        plan,
        expires_at: crate::json::i64_of(get_member(oauth, "expiresAt")),
        profile_scope: profile_scope_of(get_member(oauth, "scopes")),
    }))
}

/// The account shown for a profile: its e-mail, else its display name, where
/// not blank.
pub open spec fn profile_account_of(profile: Json) -> Option<Seq<char>> {
    let account = get(profile, "account"@);
    let email = as_text(crate::json::get_opt(account, "email"@));
    let display = as_text(crate::json::get_opt(account, "display_name"@));
    if (email matches Some(e) && spec_trim(e).len() > 0) {
        email
    } else if (display matches Some(d) && spec_trim(d).len() > 0) {
        display
    } else {
        None
    }
}

pub fn profile_account(profile: &Json) -> (r: Option<String>)
    ensures
        opt_text_of(r) == profile_account_of(*profile),
{
    let account = get_member(profile, "account");
    match nonblank(text_of(crate::json::get_in(account, "email"))) {
        Some(e) => Some(String::from_str(e)),
        None => match nonblank(text_of(crate::json::get_in(account, "display_name"))) {
            Some(d) => Some(String::from_str(d)),
            None => None,
        },
    }
}

/// The value of an environment variable, the first pair with its name.
pub open spec fn env_value(env: Seq<(String, String)>, key: Seq<char>) -> Option<Seq<char>>
    decreases env.len(),
{
    if env.len() == 0 {
        None
    } else if env[0].0@ == key {
        Some(env[0].1@)
    } else {
        env_value(env.drop_first(), key)
    }
}

pub open spec fn nonblank_text(v: Option<Seq<char>>) -> Option<Seq<char>> {
    match v {
        Some(t) => if spec_trim(t).len() > 0 { Some(t) } else { None },
        None => None,
    }
}

/// A setting from the environment, else from the settings file's `env`.
pub open spec fn configured(env: Seq<(String, String)>, settings: Option<Json>, key: Seq<char>) -> Option<Seq<char>> {
    let from_env = nonblank_text(env_value(env, key));
    if from_env is Some {
        from_env
    } else {
        nonblank_text(as_text(crate::json::get_opt(crate::json::get_opt(settings, "env"@), key)))
    }
}

pub open spec fn enabled_flag(v: Option<Seq<char>>) -> bool {
    v == Some("1"@) || v == Some("true"@)
}

pub open spec fn cloud_text(name: Seq<char>) -> Seq<char> { "本机 "@ + name + " 使用云服务商认证，无法读取 "@ + name + " 订阅额度。"@ }
pub open spec fn gateway_text(name: Seq<char>) -> Seq<char> { "本机 "@ + name + " 配置了第三方代理或网关，无法读取官方订阅额度。"@ }
pub open spec fn api_key_text(name: Seq<char>) -> Seq<char> { "本机 "@ + name + " 使用 API Key、外部认证或 Console 配置，无法读取订阅额度。"@ }
pub open spec fn env_token_text(name: Seq<char>) -> Seq<char> {
    "本机 "@ + name + " 使用环境变量令牌，通常仅有推理权限；请使用 "@ + name + " Code 的订阅登录读取用量。"@
}

/// Why the local login cannot read the subscription quota: a cloud provider,
/// a proxy or gateway, an API key or other external authentication, or an
/// environment token; none for a subscription login.
pub open spec fn unsupported_of(env: Seq<(String, String)>, settings: Option<Json>, name: Seq<char>) -> Option<Seq<char>> {
    let c = |key: Seq<char>| configured(env, settings, key);
    if enabled_flag(c("CLAUDE_CODE_USE_BEDROCK"@)) || enabled_flag(c("CLAUDE_CODE_USE_VERTEX"@)) || enabled_flag(c("CLAUDE_CODE_USE_FOUNDRY"@)) {
        Some(cloud_text(name))
    } else if (c("ANTHROPIC_BASE_URL"@) matches Some(url) && crate::text::strip_trailing(url, '/') != "https://api.anthropic.com"@)
        || c("CLAUDE_CODE_CUSTOM_OAUTH_URL"@) is Some
        || as_text(crate::json::get_opt(settings, "forceLoginMethod"@)) == Some("gateway"@)
        || present(crate::json::get_opt(settings, "forceLoginGatewayUrl"@)) is Some {
        Some(gateway_text(name))
    } else if c("ANTHROPIC_API_KEY"@) is Some || c("ANTHROPIC_AUTH_TOKEN"@) is Some || c("ANTHROPIC_PROFILE"@) is Some
        || present(crate::json::get_opt(settings, "apiKeyHelper"@)) is Some
        || (c("ANTHROPIC_FEDERATION_RULE_ID"@) is Some && c("ANTHROPIC_ORGANIZATION_ID"@) is Some) {
        Some(api_key_text(name))
    } else if c("CLAUDE_CODE_OAUTH_TOKEN"@) is Some {
        Some(env_token_text(name))
    } else {
        None
    }
}

fn env_lookup<'a>(env: &'a Vec<(String, String)>, key: &str) -> (r: Option<&'a str>)
    ensures
        match r {
            Some(v) => env_value(env@, key@) == Some(v@),
            None => env_value(env@, key@) is None,
        },
{
    let mut i: usize = 0;
    assert(env@.subrange(0, env@.len() as int) =~= env@);
    while i < env.len()
        invariant
            i <= env@.len(),
            env_value(env@, key@) == env_value(env@.subrange(i as int, env@.len() as int), key@),
        decreases env.len() - i,
    {
        assert(env@.subrange(i as int, env@.len() as int)[0] == env@[i as int]);
        if crate::text::str_eq(env[i].0.as_str(), key) {
            return Some(env[i].1.as_str());
        }
        assert(env@.subrange(i as int, env@.len() as int).drop_first() =~= env@.subrange(i + 1, env@.len() as int));
        i = i + 1;
    }
    None
}

fn configured_value<'a>(env: &'a Vec<(String, String)>, settings: Option<&'a Json>, key: &str) -> (r: Option<&'a str>)
    ensures
        match r {
            Some(v) => configured(env@, deref_opt(settings), key@) == Some(v@),
            None => configured(env@, deref_opt(settings), key@) is None,
        },
{
    if let Some(v) = nonblank(env_lookup(env, key)) {
        return Some(v);
    }
    nonblank(text_of(crate::json::get_in(crate::json::get_in(settings, "env"), key)))
}

fn flag_on(v: Option<&str>) -> (r: bool)
    ensures
        r == enabled_flag(match v { Some(x) => Some(x@), None => None }),
{
    match v {
        Some(x) => crate::text::str_eq(x, "1") || crate::text::str_eq(x, "true"),
        None => false,
    }
}

fn message(name: &str, parts: &[&str]) -> (m: String)
    requires
        parts@.len() == 2 || parts@.len() == 3,
    ensures
        parts@.len() == 2 ==> m@ == parts@[0]@ + name@ + parts@[1]@,
        parts@.len() == 3 ==> m@ == parts@[0]@ + name@ + parts@[1]@ + name@ + parts@[2]@,
{
    let mut m = String::from_str(parts[0]);
    m.append(name);
    m.append(parts[1]);
    if parts.len() == 3 {
        m.append(name);
        m.append(parts[2]);
    }
    m
}

/// Why the local login cannot read the subscription quota, if it cannot.
/// `env` holds the environment variables by name, `settings` the settings
/// file, and `name` the provider's display name.
pub fn unsupported_auth(settings: Option<&Json>, env: &Vec<(String, String)>, name: &str) -> (r: Option<String>)
    ensures
        opt_text_of(r) == unsupported_of(env@, deref_opt(settings), name@),
{
    if flag_on(configured_value(env, settings, "CLAUDE_CODE_USE_BEDROCK"))
        || flag_on(configured_value(env, settings, "CLAUDE_CODE_USE_VERTEX"))
        || flag_on(configured_value(env, settings, "CLAUDE_CODE_USE_FOUNDRY")) {
        return Some(message(name, &["本机 ", " 使用云服务商认证，无法读取 ", " 订阅额度。"]));
    }
    let proxy = match configured_value(env, settings, "ANTHROPIC_BASE_URL") {
        Some(url) => !crate::text::str_eq(crate::text::trim_trailing(url, '/').as_str(), "https://api.anthropic.com"),
        None => false,
    };
    let gateway_method = match text_of(crate::json::get_in(settings, "forceLoginMethod")) {
        Some(m) => crate::text::str_eq(m, "gateway"),
        None => false,
    };
    if proxy || configured_value(env, settings, "CLAUDE_CODE_CUSTOM_OAUTH_URL").is_some() || gateway_method
        || present_value(crate::json::get_in(settings, "forceLoginGatewayUrl")).is_some() {
        return Some(message(name, &["本机 ", " 配置了第三方代理或网关，无法读取官方订阅额度。"]));
    }
    if configured_value(env, settings, "ANTHROPIC_API_KEY").is_some()
        || configured_value(env, settings, "ANTHROPIC_AUTH_TOKEN").is_some()
        || configured_value(env, settings, "ANTHROPIC_PROFILE").is_some()
        || present_value(crate::json::get_in(settings, "apiKeyHelper")).is_some()
        || (configured_value(env, settings, "ANTHROPIC_FEDERATION_RULE_ID").is_some()
            && configured_value(env, settings, "ANTHROPIC_ORGANIZATION_ID").is_some()) {
        return Some(message(name, &["本机 ", " 使用 API Key、外部认证或 Console 配置，无法读取订阅额度。"]));
    }
    if configured_value(env, settings, "CLAUDE_CODE_OAUTH_TOKEN").is_some() {
        return Some(message(name, &["本机 ", " 使用环境变量令牌，通常仅有推理权限；请使用 ", " Code 的订阅登录读取用量。"]));
    }
    None
}

pub open spec fn expired_login_text(name: Seq<char>) -> Seq<char> { name + " 登录已失效，请在 "@ + name + " Code 中重新登录。"@ }
pub open spec fn forbidden_text(name: Seq<char>) -> Seq<char> { "当前 "@ + name + " 登录没有读取订阅用量的权限。"@ }
pub open spec fn limited_text(name: Seq<char>) -> Seq<char> { name + " 用量查询暂时受到频率限制，请稍后刷新。"@ }
pub open spec fn service_error_text(name: Seq<char>, code: u16) -> Seq<char> {
    name + " 官方用量服务暂不可用（HTTP "@ + crate::text::decimal(code as nat) + "）。"@
}

/// A failed status of the official endpoints: an expired or insufficient
/// login is unavailable; rate limiting and other failures are errors. Never
/// the response body.
pub open spec fn status_failure(code: u16, name: Seq<char>) -> Option<(bool, Seq<char>)> {
    if code == 401 {
        Some((true, expired_login_text(name)))
    } else if code == 403 {
        Some((true, forbidden_text(name)))
    } else if code == 429 {
        Some((false, limited_text(name)))
    } else if !(200 <= code <= 299) {
        Some((false, service_error_text(name, code)))
    } else {
        None
    }
}

pub open spec fn failure_parts(f: Failure) -> (bool, Seq<char>) {
    match f {
        Failure::Unavailable(m) => (true, m@),
        Failure::Error(m) => (false, m@),
    }
}

pub fn response_failure(code: u16, name: &str) -> (f: Option<Failure>)
    ensures
        match f {
            Some(x) => status_failure(code, name@) == Some(failure_parts(x)),
            None => status_failure(code, name@) is None,
        },
{
    proof { reveal_strlit(""); }
    assert(""@ + name@ =~= name@);
    if code == 401 {
        Some(Failure::Unavailable(message(name, &["", " 登录已失效，请在 ", " Code 中重新登录。"])))
    } else if code == 403 {
        Some(Failure::Unavailable(message(name, &["当前 ", " 登录没有读取订阅用量的权限。"])))
    } else if code == 429 {
        Some(Failure::Error(message(name, &["", " 用量查询暂时受到频率限制，请稍后刷新。"])))
    } else if !(200 <= code && code <= 299) {
        let mut m = String::from_str(name);
        m.append(" 官方用量服务暂不可用（HTTP ");
        crate::text::push_decimal(&mut m, code as u64);
        m.append("）。");
        Some(Failure::Error(m))
    } else {
        None
    }
}

// ---------------------------------------------------------------------------
// The Anthropic card.

pub open spec fn unconfirmed_plan_text() -> Seq<char> { "订阅未确认"@ }

/// The card before anything was read: unconfirmed plan, unavailable.
pub fn empty_usage(name: &str) -> (u: ProviderUsage)
    ensures
        u.id == ProviderId::Claude && u.name@ == name@ && u.plan@ == unconfirmed_plan_text()
            && u.source == DataMode::Local && u.status == ProviderStatus::Unavailable
            && u.account is None && u.message is None && u.windows@.len() == 0
            && u.updated_at is None && u.cache_scope is None && u.reset_credits is None,
{
    ProviderUsage {
        id: ProviderId::Claude,
        name: String::from_str(name),
        plan: String::from_str("订阅未确认"),
        source: DataMode::Local,
        status: ProviderStatus::Unavailable,
        account: None,
        message: None,
        windows: Vec::new(),
        updated_at: None,
        cache_scope: None,
        reset_credits: None,
    }
}

pub open spec fn no_login_text(name: Seq<char>) -> Seq<char> { "未检测到 "@ + name + " Code 订阅登录，请先在 "@ + name + " Code 中登录。"@ }
pub open spec fn api_key_login_text(name: Seq<char>) -> Seq<char> { "本机未保存 "@ + name + " 订阅登录；API Key 账号没有订阅额度数据。"@ }
pub open spec fn missing_scope_text(name: Seq<char>) -> Seq<char> { "当前 "@ + name + " 登录缺少账号与用量读取权限，请在 "@ + name + " Code 中重新登录。"@ }
pub open spec fn expired_text(name: Seq<char>) -> Seq<char> { name + " 登录已过期，请打开 "@ + name + " Code 刷新登录后重试。"@ }
pub open spec fn no_windows_text(name: Seq<char>) -> Seq<char> { name + " 已登录，但服务未返回可显示的订阅额度。"@ }

/// Why no stored login can be used: none stored, or only an API key.
pub fn missing_login(stored: bool, name: &str) -> (f: Failure)
    ensures
        failure_parts(f) == (true, if stored { api_key_login_text(name@) } else { no_login_text(name@) }),
{
    if stored {
        Failure::Unavailable(message(name, &["本机未保存 ", " 订阅登录；API Key 账号没有订阅额度数据。"]))
    } else {
        Failure::Unavailable(message(name, &["未检测到 ", " Code 订阅登录，请先在 ", " Code 中登录。"]))
    }
}

/// A login without the profile scope, or expired by `now_ms` (milliseconds
/// since the epoch), cannot read the subscription.
pub open spec fn login_problem(profile_scope: bool, expires_at: Option<i64>, now_ms: i64, name: Seq<char>) -> Option<Seq<char>> {
    if !profile_scope {
        Some(missing_scope_text(name))
    } else if (expires_at matches Some(e) && e <= now_ms) {
        Some(expired_text(name))
    } else {
        None
    }
}

pub fn login_failure(credential: &CredentialInfo, now_ms: i64, name: &str) -> (f: Option<Failure>)
    ensures
        match f {
            Some(x) => failure_parts(x) == (true, login_problem(credential.profile_scope, credential.expires_at, now_ms, name@)->0)
                && login_problem(credential.profile_scope, credential.expires_at, now_ms, name@) is Some,
            None => login_problem(credential.profile_scope, credential.expires_at, now_ms, name@) is None,
        },
{
    if !credential.profile_scope {
        return Some(Failure::Unavailable(message(name, &["当前 ", " 登录缺少账号与用量读取权限，请在 ", " Code 中重新登录。"])));
    }
    let expired = match credential.expires_at {
        Some(e) => e <= now_ms,
        None => false,
    };
    if expired {
        proof { reveal_strlit(""); }
        assert(""@ + name@ =~= name@);
        return Some(Failure::Unavailable(message(name, &["", " 登录已过期，请打开 ", " Code 刷新登录后重试。"])));
    }
    None
}

/// The one-way digest of the selected login: the configuration directory,
/// a zero byte and the token. The token itself never leaves.
pub open spec fn login_material(config_dir: Seq<u8>, token: Seq<char>) -> Seq<u8> {
    config_dir + seq![0u8] + vstd::utf8::encode_utf8(token)
}

pub fn login_scope(config_dir: &[u8], token: &str) -> (scope: String)
    ensures
        scope@ == crate::scope::spec_sha256_hex(login_material(config_dir@, token@)),
{
    let mut material: Vec<u8> = Vec::new();
    let mut i: usize = 0;
    while i < config_dir.len()
        invariant
            i <= config_dir@.len(),
            material@ == config_dir@.subrange(0, i as int),
        decreases config_dir.len() - i,
    {
        material.push(config_dir[i]);
        i = i + 1;
        assert(material@ =~= config_dir@.subrange(0, i as int));
    }
    material.push(0u8);
    let bytes = token.as_bytes();
    let mut j: usize = 0;
    let ghost head = material@;
    while j < bytes.len()
        invariant
            j <= bytes@.len(),
            material@ == head + bytes@.subrange(0, j as int),
        decreases bytes.len() - j,
    {
        material.push(bytes[j]);
        j = j + 1;
        assert(material@ =~= head + bytes@.subrange(0, j as int));
    }
    assert(config_dir@.subrange(0, config_dir@.len() as int) =~= config_dir@);
    assert(material@ =~= login_material(config_dir@, token@));
    crate::scope::sha256_hex(material.as_slice())
}

/// The profile names the account and, through its organization type, the plan.
pub fn apply_profile(usage: &mut ProviderUsage, profile: &Json)
    ensures
        opt_text_of(final(usage).account) == profile_account_of(*profile),
        final(usage).plan@ == (match as_text(crate::json::get_opt(get(*profile, "organization"@), "organization_type"@)) {
            Some(t) => crate::providers::claude_plan_text(t),
            None => old(usage).plan@,
        }),
        final(usage).status == old(usage).status,
        final(usage).windows == old(usage).windows,
        final(usage).message == old(usage).message,
        final(usage).cache_scope == old(usage).cache_scope,
        final(usage).id == old(usage).id && final(usage).name == old(usage).name && final(usage).source == old(usage).source,
        final(usage).updated_at == old(usage).updated_at && final(usage).reset_credits == old(usage).reset_credits,
{
    usage.account = profile_account(profile);
    if let Some(t) = text_of(crate::json::get_in(get_member(profile, "organization"), "organization_type")) {
        usage.plan = crate::providers::plan_name(t);
    }
}

/// A usage response without windows leaves the card unavailable; otherwise
/// the card is ready with its windows and the update time.
pub fn apply_windows(usage: &mut ProviderUsage, windows: Vec<UsageWindow>, now: crate::time::Timestamp, name: &str) -> (r: Result<(), Failure>)
    ensures
        final(usage).windows@ == windows@,
        windows@.len() == 0 ==> (r matches Err(f) && failure_parts(f) == (true, no_windows_text(name@))
            && final(usage).status == old(usage).status && final(usage).updated_at == old(usage).updated_at),
        windows@.len() > 0 ==> (r is Ok && final(usage).status == ProviderStatus::Ready
            && opt_text_of(final(usage).updated_at) == reset_text(Some(now.secs))),
        final(usage).plan == old(usage).plan,
        final(usage).account == old(usage).account,
        final(usage).message == old(usage).message,
{
    let empty = windows.len() == 0;
    usage.windows = windows;
    if empty {
        proof { reveal_strlit(""); }
        assert(""@ + name@ =~= name@);
        return Err(Failure::Unavailable(message(name, &["", " 已登录，但服务未返回可显示的订阅额度。"])));
    }
    usage.status = ProviderStatus::Ready;
    usage.updated_at = crate::time::utc_seconds_text(now.secs);
    Ok(())
}

/// A failure is shown on the card: unavailable or error, with its message.
pub fn apply_failure(usage: &mut ProviderUsage, failure: Failure)
    ensures
        final(usage).status == (if failure_parts(failure).0 { ProviderStatus::Unavailable } else { ProviderStatus::Error }),
        opt_text_of(final(usage).message) == Some(failure_parts(failure).1),
        final(usage).windows == old(usage).windows,
        final(usage).plan == old(usage).plan,
        final(usage).account == old(usage).account,
{
    match failure {
        Failure::Unavailable(m) => {
            usage.status = ProviderStatus::Unavailable;
            usage.message = Some(m);
        },
        Failure::Error(m) => {
            usage.status = ProviderStatus::Error;
            usage.message = Some(m);
        },
    }
}

proof fn lemma_rows_read_in_order(rows: Seq<Json>, name: Seq<char>, k: int)
    requires
        0 <= k <= rows.len(),
    ensures
        rows_spec(rows, name, k) matches Ok(ws) ==> ws.len() == k && forall|i: int| 0 <= i < k
            ==> window_spec(rows[i], "percent"@, row_label(rows[i]), name) == Ok::<WindowModel, Seq<char>>(#[trigger] ws[i]),
    decreases k,
{
    if k > 0 {
        lemma_rows_read_in_order(rows, name, k - 1);
    }
}

/// Each server row gives one window, in order, labelled by its kind where the
/// row names no model or surface: a session row is the five-hour window, an
/// all-models or scoped weekly row is the weekly window, and only another kind
/// is a generic subscription window. The window carries the row's percentage.
pub proof fn law_row_labels_follow_kind(value: Json, name: Seq<char>, rows: Vec<Json>)
    requires
        present(get(value, "limits"@)) == Some(Json::Array(rows)),
    ensures
        windows_spec(value, name) matches Ok(ws) ==> ws.len() == rows@.len() && forall|i: int| 0 <= i < ws.len()
            ==> (get(rows@[i], "scope"@) is None ==> (#[trigger] ws[i]).label == (
                if as_text(get(rows@[i], "kind"@)) == Some("session"@) {
                    "5 小时用量"@
                } else if as_text(get(rows@[i], "kind"@)) == Some("weekly_all"@)
                    || as_text(get(rows@[i], "kind"@)) == Some("weekly_scoped"@) {
                    "每周用量"@
                } else {
                    "订阅用量"@
                }))
                && as_f64(get(rows@[i], "percent"@)) == Some(ws[i].used_percent),
{
    reveal_strlit("session");
    reveal_strlit("weekly_all");
    reveal_strlit("weekly_scoped");
    assert("session"@.len() == 7 && "weekly_all"@.len() == 10 && "weekly_scoped"@.len() == 13);
    lemma_rows_read_in_order(rows@, name, rows@.len() as int);
}

proof fn lemma_meter_step_labels(acc: Result<Seq<WindowModel>, Seq<char>>, value: Json, key: Seq<char>, label: Seq<char>, name: Seq<char>)
    ensures
        meter_step(acc, value, key, label, name) matches Ok(ws) ==> (acc matches Ok(before)
            && (ws == before || (ws.len() == before.len() + 1 && ws.drop_last() == before && ws.last().label == label))),
{
    if meter_step(acc, value, key, label, name) is Ok && acc is Ok {
        let before = acc->Ok_0;
        let ws = meter_step(acc, value, key, label, name)->Ok_0;
        if ws != before {
            assert(ws.drop_last() =~= before);
        }
    }
}

/// Without server rows the windows come from the legacy meters in a fixed
/// order: the five-hour meter first, then the weekly, Sonnet weekly and Opus
/// weekly meters, each under its own label; a meter with a reported
/// utilization is never left out.
pub proof fn law_legacy_meters_keep_their_labels(value: Json, name: Seq<char>)
    requires
        present(get(value, "limits"@)) is None,
    ensures
        windows_spec(value, name) matches Ok(ws) ==> ws.len() <= 4 && forall|i: int| 0 <= i < ws.len()
            ==> (#[trigger] ws[i]).label == "5 小时用量"@ || ws[i].label == "每周用量"@
                || ws[i].label == "Sonnet 每周用量"@ || ws[i].label == "Opus 每周用量"@,
        windows_spec(value, name) matches Ok(ws) ==> (present(get(value, "five_hour"@)) is Some
            && present(get(present(get(value, "five_hour"@))->0, "utilization"@)) is Some) ==> ws.len() > 0
                && ws[0].label == "5 小时用量"@
                && as_f64(get(present(get(value, "five_hour"@))->0, "utilization"@)) == Some(ws[0].used_percent),
{
    let a = meter_step(Ok(Seq::empty()), value, "five_hour"@, "5 小时用量"@, name);
    let b = meter_step(a, value, "seven_day"@, "每周用量"@, name);
    let c = meter_step(b, value, "seven_day_sonnet"@, "Sonnet 每周用量"@, name);
    let d = meter_step(c, value, "seven_day_opus"@, "Opus 每周用量"@, name);
    lemma_meter_step_labels(Ok(Seq::empty()), value, "five_hour"@, "5 小时用量"@, name);
    lemma_meter_step_labels(a, value, "seven_day"@, "每周用量"@, name);
    lemma_meter_step_labels(b, value, "seven_day_sonnet"@, "Sonnet 每周用量"@, name);
    lemma_meter_step_labels(c, value, "seven_day_opus"@, "Opus 每周用量"@, name);
    if d is Ok {
        let ws = d->Ok_0;
        let wa = a->Ok_0;
        let wb = b->Ok_0;
        let wc = c->Ok_0;
        assert forall|i: int| 0 <= i < ws.len() implies (#[trigger] ws[i]).label == "5 小时用量"@ || ws[i].label == "每周用量"@
            || ws[i].label == "Sonnet 每周用量"@ || ws[i].label == "Opus 每周用量"@ by {
            if i < wc.len() {
                assert(ws[i] == wc[i]);
                if i < wb.len() {
                    assert(wc[i] == wb[i]);
                    if i < wa.len() {
                        assert(wb[i] == wa[i]);
                    }
                }
            }
        }
        if present(get(value, "five_hour"@)) is Some && present(get(present(get(value, "five_hour"@))->0, "utilization"@)) is Some {
            assert(wa.len() == 1);
            assert(wb[0] == wa[0]);
            assert(wc[0] == wb[0]);
            assert(ws[0] == wc[0]);
        }
    }
}

} // verus!

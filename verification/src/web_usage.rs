//! Native re-validation of the web supplement: the page can alter its own
//! scripts, so identity, bounds and allowed text are checked again here.
use vstd::prelude::*;
use vstd::string::StringSliceAdditionalSpecFns;
use vstd::utf8::encode_utf8;
use crate::account_statistics::{Amount, WebServiceAmount, WebUsageSnapshot, WebUsageDay, WebCreditEvent, amount_finite, amount_nonnegative, amount_percent};
use crate::models::ProviderStatus;
use crate::json::{Json, get, get_member};
use crate::text::{str_eq, trim_text, lowercase_text, spec_trim, spec_lowercase};
use crate::time::{parse_rfc3339, spec_rfc3339, parse_day, spec_parse_day};

verus! {

/// An unavailable supplement that carries only its explanation.
pub fn unavailable(message: &str) -> (s: WebUsageSnapshot)
    ensures
        s.status == ProviderStatus::Unavailable,
        s.message matches Some(m) && m@ == message@,
        s.account is None && s.credits_remaining is None && s.code_review_remaining_percent is None
            && s.usage_unit is None && s.usage_breakdown is None && s.credit_events is None
            && s.updated_at is None,
{
    WebUsageSnapshot {
        status: ProviderStatus::Unavailable,
        message: Some(String::from_str(message)),
        account: None,
        credits_remaining: None,
        code_review_remaining_percent: None,
        usage_unit: None,
        usage_breakdown: None,
        credit_events: None,
        updated_at: None,
    }
}

pub open spec fn name_byte(c: u8) -> bool {
    (0x30 <= c <= 0x39) || (0x41 <= c <= 0x5a) || (0x61 <= c <= 0x7a)
        || c == 0x5f || c == 0x2e || c == 0x3a || c == 0x20 || c == 0x2d
}

/// A service or unit name: 1 to 80 bytes of ASCII letters, digits, `_`, `.`, `:`, space or `-`.
pub open spec fn valid_name_bytes(b: Seq<u8>) -> bool {
    0 < b.len() <= 80 && forall|i: int| 0 <= i < b.len() ==> name_byte(#[trigger] b[i])
}

pub fn valid_name(value: &str) -> (valid: bool)
    ensures
        valid == valid_name_bytes(encode_utf8(value@)),
{
    let bytes = value.as_bytes();
    if bytes.len() == 0 || bytes.len() > 80 {
        return false;
    }
    let mut i: usize = 0;
    while i < bytes.len()
        invariant
            i <= bytes@.len(),
            bytes@ == encode_utf8(value@),
            forall|k: int| 0 <= k < i ==> name_byte(#[trigger] bytes@[k]),
        decreases bytes@.len() - i,
    {
        let c = bytes[i];
        let ok = (0x30 <= c && c <= 0x39) || (0x41 <= c && c <= 0x5a) || (0x61 <= c && c <= 0x7a)
            || c == 0x5f || c == 0x2e || c == 0x3a || c == 0x20 || c == 0x2d;
        if !ok {
            assert(!name_byte(bytes@[i as int]));
            return false;
        }
        i = i + 1;
    }
    true
}

/// A date of at most 40 bytes that reads as `%Y-%m-%d` or as RFC 3339.
pub open spec fn valid_date_chars(s: Seq<char>) -> bool {
    encode_utf8(s).len() <= 40 && (spec_parse_day(s) is Some || spec_rfc3339(s) is Some)
}

pub fn valid_date(value: &str) -> (valid: bool)
    ensures
        valid == valid_date_chars(value@),
{
    value.as_bytes().len() <= 40 && (parse_day(value).is_some() || parse_rfc3339(value).is_some())
}

pub open spec fn partial_prefix() -> Seq<char> { "部分网页补充数据暂不可用："@ }

/// The parts of the supplement that may be reported missing.
pub open spec fn missing_part(x: Seq<char>) -> bool {
    x == "额度补充"@ || x == "每日用量"@ || x == "Credit 记录"@ || x == "额度补充、每日用量"@
        || x == "额度补充、Credit 记录"@ || x == "每日用量、Credit 记录"@
}

/// A partial-data notice names which parts are missing and nothing else.
pub open spec fn partial_message_text(m: Seq<char>) -> bool {
    exists|x: Seq<char>| missing_part(x) && m == partial_prefix() + x + "。"@
}

fn is_notice(message: &str, part: &str) -> (r: bool)
    ensures
        r == (message@ == partial_prefix() + part@ + "。"@),
{
    let mut candidate = String::from_str("部分网页补充数据暂不可用：");
    candidate.append(part);
    candidate.append("。");
    str_eq(message, candidate.as_str())
}

pub fn partial_message(message: &str) -> (r: bool)
    ensures
        r == partial_message_text(message@),
{
    let a = is_notice(message, "额度补充");
    let b = is_notice(message, "每日用量");
    let c = is_notice(message, "Credit 记录");
    let d = is_notice(message, "额度补充、每日用量");
    let e = is_notice(message, "额度补充、Credit 记录");
    let f = is_notice(message, "每日用量、Credit 记录");
    proof {
        if a { assert(missing_part("额度补充"@)); }
        if b { assert(missing_part("每日用量"@)); }
        if c { assert(missing_part("Credit 记录"@)); }
        if d { assert(missing_part("额度补充、每日用量"@)); }
        if e { assert(missing_part("额度补充、Credit 记录"@)); }
        if f { assert(missing_part("每日用量、Credit 记录"@)); }
        if partial_message_text(message@) {
            let x = choose|x: Seq<char>| missing_part(x) && message@ == partial_prefix() + x + "。"@;
            assert(message@ == partial_prefix() + x + "。"@);
        }
    }
    a || b || c || d || e || f
}

/// The notices that an unavailable supplement may carry.
pub open spec fn unavailable_notice(m: Seq<char>) -> bool {
    m == "服务端尚未确认当前账号和工作区，暂不合并网页补充数据。"@
        || m == "请在 Codex 用量网页完成登录，然后刷新使用统计。"@
        || m == "网页登录账号与当前数据源不一致，请切换为相同账号后刷新。"@
        || m == "网页登录已失效，请重新登录后刷新使用统计。"@
        || m == "网页返回的工作区与当前数据源不一致，已停止合并网页补充数据。"@
        || m == "Codex 用量网页读取超时，请完成登录后刷新。"@
        || m == "网页补充接口不可用，请在用量网页检查登录状态和工作区权限。"@
        || m == "Codex 网页补充读取失败，请刷新使用统计。"@
}

fn is_unavailable_notice(m: &str) -> (r: bool)
    ensures
        r == unavailable_notice(m@),
{
    str_eq(m, "服务端尚未确认当前账号和工作区，暂不合并网页补充数据。")
        || str_eq(m, "请在 Codex 用量网页完成登录，然后刷新使用统计。")
        || str_eq(m, "网页登录账号与当前数据源不一致，请切换为相同账号后刷新。")
        || str_eq(m, "网页登录已失效，请重新登录后刷新使用统计。")
        || str_eq(m, "网页返回的工作区与当前数据源不一致，已停止合并网页补充数据。")
        || str_eq(m, "Codex 用量网页读取超时，请完成登录后刷新。")
        || str_eq(m, "网页补充接口不可用，请在用量网页检查登录状态和工作区权限。")
        || str_eq(m, "Codex 网页补充读取失败，请刷新使用统计。")
}

pub open spec fn valid_day(d: WebUsageDay) -> bool {
    valid_date_chars(d.date@) && d.amounts@.len() <= 64
        && forall|k: int| 0 <= k < d.amounts@.len() ==> valid_amount(#[trigger] d.amounts@[k])
}

pub open spec fn valid_amount(a: WebServiceAmount) -> bool {
    valid_name_bytes(encode_utf8(a.service@)) && amount_finite(a.amount)
}

pub open spec fn valid_event(e: WebCreditEvent) -> bool {
    valid_date_chars(e.date@) && valid_name_bytes(encode_utf8(e.service@))
        && amount_finite(e.credits)
}

/// What a supplement must satisfy to be shown for `expected_account`.
/// Unavailable or failed: nothing but one of the known notices. Ready: the
/// page's account is the expected one (trimmed, lower-cased), figures are
/// finite and in range, names and dates are well formed, lists are bounded,
/// and at least one figure is present.
pub open spec fn valid_snapshot_of(s: WebUsageSnapshot, expected: Seq<char>) -> bool {
    if s.status != ProviderStatus::Ready {
        s.account is None && s.credits_remaining is None && s.code_review_remaining_percent is None
            && s.usage_unit is None && s.usage_breakdown is None && s.credit_events is None
            && s.updated_at is None
            && (s.message matches Some(m) && unavailable_notice(m@))
    } else {
        &&& (s.account matches Some(a) && a@ == spec_lowercase(spec_trim(expected)))
        &&& (s.message matches Some(m) ==> partial_message_text(m@))
        &&& (s.updated_at matches Some(u) && spec_rfc3339(u@) is Some)
        &&& (s.credits_remaining matches Some(c) ==> amount_nonnegative(c))
        &&& (s.code_review_remaining_percent matches Some(c) ==> amount_percent(c))
        &&& (s.usage_unit matches Some(u) ==> valid_name_bytes(encode_utf8(u@)))
        &&& (s.usage_unit is Some ==> s.usage_breakdown is Some)
        &&& (s.usage_breakdown matches Some(days) ==> days@.len() <= 62
                && forall|k: int| 0 <= k < days@.len() ==> valid_day(#[trigger] days@[k]))
        &&& (s.credit_events matches Some(events) ==> events@.len() <= 1000
                && forall|k: int| 0 <= k < events@.len() ==> valid_event(#[trigger] events@[k]))
        &&& (s.credits_remaining is Some || s.code_review_remaining_percent is Some
                || s.usage_breakdown is Some || s.credit_events is Some)
    }
}

fn valid_days(days: &Vec<WebUsageDay>) -> (r: bool)
    ensures
        r == (days@.len() <= 62 && forall|k: int| 0 <= k < days@.len() ==> valid_day(#[trigger] days@[k])),
{
    if days.len() > 62 {
        return false;
    }
    let mut i: usize = 0;
    while i < days.len()
        invariant
            i <= days@.len(),
            forall|k: int| 0 <= k < i ==> valid_day(#[trigger] days@[k]),
        decreases days@.len() - i,
    {
        let day = &days[i];
        if !valid_date(day.date.as_str()) || day.amounts.len() > 64 {
            assert(!valid_day(days@[i as int]));
            return false;
        }
        let mut j: usize = 0;
        while j < day.amounts.len()
            invariant
                i < days@.len(),
                *day == days@[i as int],
                j <= day.amounts@.len(),
                forall|k: int| 0 <= k < j ==> valid_amount(#[trigger] day.amounts@[k]),
            decreases day.amounts@.len() - j,
        {
            let amount = &day.amounts[j];
            if !valid_name(amount.service.as_str()) || !amount.amount.is_finite() {
                assert(!valid_day(days@[i as int]));
                return false;
            }
            assert(valid_amount(day.amounts@[j as int]));
            j = j + 1;
        }
        assert(valid_day(days@[i as int]));
        i = i + 1;
    }
    true
}

fn valid_events(events: &Vec<WebCreditEvent>) -> (r: bool)
    ensures
        r == (events@.len() <= 1000 && forall|k: int| 0 <= k < events@.len() ==> valid_event(#[trigger] events@[k])),
{
    if events.len() > 1000 {
        return false;
    }
    let mut i: usize = 0;
    while i < events.len()
        invariant
            i <= events@.len(),
            forall|k: int| 0 <= k < i ==> valid_event(#[trigger] events@[k]),
        decreases events@.len() - i,
    {
        let event = &events[i];
        if !valid_date(event.date.as_str()) || !valid_name(event.service.as_str()) || !event.credits.is_finite() {
            assert(!valid_event(events@[i as int]));
            return false;
        }
        i = i + 1;
    }
    true
}

/// Rechecks a supplement natively before it may be merged or shown.
pub fn valid_snapshot(s: &WebUsageSnapshot, expected_account: &str) -> (valid: bool)
    ensures
        valid == valid_snapshot_of(*s, expected_account@),
{
    if s.status != ProviderStatus::Ready {
        let empty = s.account.is_none() && s.credits_remaining.is_none()
            && s.code_review_remaining_percent.is_none() && s.usage_unit.is_none()
            && s.usage_breakdown.is_none() && s.credit_events.is_none() && s.updated_at.is_none();
        if !empty {
            return false;
        }
        return match &s.message {
            Some(m) => is_unavailable_notice(m.as_str()),
            None => false,
        };
    }
    let account = lowercase_text(trim_text(expected_account));
    let account_ok = match &s.account {
        Some(a) => str_eq(a.as_str(), account.as_str()),
        None => false,
    };
    if !account_ok {
        return false;
    }
    let message_ok = match &s.message {
        Some(m) => partial_message(m.as_str()),
        None => true,
    };
    let updated_ok = match &s.updated_at {
        Some(u) => parse_rfc3339(u.as_str()).is_some(),
        None => false,
    };
    let credits_ok = match s.credits_remaining {
        Some(c) => c.is_nonnegative(),
        None => true,
    };
    let review_ok = match s.code_review_remaining_percent {
        Some(c) => c.is_percent(),
        None => true,
    };
    let unit_ok = match &s.usage_unit {
        Some(u) => valid_name(u.as_str()) && s.usage_breakdown.is_some(),
        None => true,
    };
    if !(message_ok && updated_ok && credits_ok && review_ok && unit_ok) {
        return false;
    }
    let days_ok = match &s.usage_breakdown {
        Some(days) => valid_days(days),
        None => true,
    };
    let events_ok = match &s.credit_events {
        Some(events) => valid_events(events),
        None => true,
    };
    days_ok && events_ok && (s.credits_remaining.is_some() || s.code_review_remaining_percent.is_some()
        || s.usage_breakdown.is_some() || s.credit_events.is_some())
}

/// Every key of `members` is among `fields`.
pub open spec fn keys_among(members: Seq<(String, Json)>, fields: Seq<Seq<char>>) -> bool
    decreases members.len(),
{
    if members.len() == 0 { true } else { keys_among(members.drop_last(), fields) && fields.contains(members.last().0@) }
}

/// An object whose keys are all among `fields`.
pub open spec fn only_fields(value: Json, fields: Seq<Seq<char>>) -> bool {
    match value {
        Json::Object(members) => keys_among(members@, fields),
        _ => false,
    }
}

pub open spec fn snapshot_fields() -> Seq<Seq<char>> {
    seq!["status"@, "message"@, "account"@, "creditsRemaining"@, "codeReviewRemainingPercent"@,
        "usageUnit"@, "usageBreakdown"@, "creditEvents"@, "updatedAt"@]
}

pub open spec fn day_fields() -> Seq<Seq<char>> { seq!["date"@, "amounts"@] }
pub open spec fn amount_fields() -> Seq<Seq<char>> { seq!["service"@, "amount"@] }
pub open spec fn event_fields() -> Seq<Seq<char>> { seq!["date"@, "service"@, "credits"@] }

/// Every value of `s` is an object with only `fields`.
pub open spec fn all_only(s: Seq<Json>, fields: Seq<Seq<char>>) -> bool
    decreases s.len(),
{
    if s.len() == 0 { true } else { all_only(s.drop_last(), fields) && only_fields(s.last(), fields) }
}

/// A day of the usage breakdown: only a date and amounts, each amount only a
/// service and an amount.
pub open spec fn allowed_day(day: Json) -> bool {
    only_fields(day, day_fields()) && match get(day, "amounts"@) {
        Some(Json::Array(amounts)) => all_only(amounts@, amount_fields()),
        _ => true,
    }
}

pub open spec fn all_days(s: Seq<Json>) -> bool
    decreases s.len(),
{
    if s.len() == 0 { true } else { all_days(s.drop_last()) && allowed_day(s.last()) }
}

/// The web supplement carries only the fields that it is allowed to carry, at
/// every level that the page fills.
pub open spec fn allowed(value: Json) -> bool {
    &&& only_fields(value, snapshot_fields())
    &&& match get(value, "usageBreakdown"@) {
        Some(Json::Array(days)) => all_days(days@),
        _ => true,
    }
    &&& match get(value, "creditEvents"@) {
        Some(Json::Array(events)) => all_only(events@, event_fields()),
        _ => true,
    }
}

fn in_list(key: &str, fields: &[&str]) -> (r: bool)
    ensures
        r == fields@.map_values(|f: &str| f@).contains(key@),
{
    let ghost names = fields@.map_values(|f: &str| f@);
    let mut i: usize = 0;
    while i < fields.len()
        invariant
            i <= fields@.len(),
            names == fields@.map_values(|f: &str| f@),
            forall|j: int| 0 <= j < i ==> names[j] != key@,
        decreases fields.len() - i,
    {
        if str_eq(fields[i], key) {
            assert(names[i as int] == key@);
            return true;
        }
        i = i + 1;
    }
    false
}

fn object_fields(value: &Json, fields: &[&str]) -> (r: bool)
    ensures
        r == only_fields(*value, fields@.map_values(|f: &str| f@)),
{
    let ghost fs = fields@.map_values(|f: &str| f@);
    match value {
        Json::Object(members) => {
            let mut i: usize = 0;
            while i < members.len()
                invariant
                    i <= members@.len(),
                    fs == fields@.map_values(|f: &str| f@),
                    *value == Json::Object(*members),
                    keys_among(members@.subrange(0, i as int), fs),
                decreases members.len() - i,
            {
                assert(members@.subrange(0, i + 1).drop_last() =~= members@.subrange(0, i as int));
                if !in_list(members[i].0.as_str(), fields) {
                    proof {
                        assert(members@.subrange(0, i + 1).last() == members@[i as int]);
                        lemma_keys_prefix(members@, fs, i + 1, members@.len() as int);
                        assert(members@.subrange(0, members@.len() as int) =~= members@);
                    }
                    return false;
                }
                i = i + 1;
            }
            assert(members@.subrange(0, members@.len() as int) =~= members@);
            true
        },
        _ => false,
    }
}

proof fn lemma_keys_prefix(members: Seq<(String, Json)>, fs: Seq<Seq<char>>, j: int, k: int)
    requires
        0 <= j <= k <= members.len(),
        !keys_among(members.subrange(0, j), fs),
    ensures
        !keys_among(members.subrange(0, k), fs),
    decreases k - j,
{
    if k > j {
        lemma_keys_prefix(members, fs, j, k - 1);
        assert(members.subrange(0, k).drop_last() =~= members.subrange(0, k - 1));
    }
    if k == members.len() {
        assert(members.subrange(0, k) =~= members);
    }
}

proof fn lemma_all_only_prefix(s: Seq<Json>, fs: Seq<Seq<char>>, j: int, k: int)
    requires
        0 <= j <= k <= s.len(),
        !all_only(s.subrange(0, j), fs),
    ensures
        !all_only(s.subrange(0, k), fs),
    decreases k - j,
{
    if k > j {
        lemma_all_only_prefix(s, fs, j, k - 1);
        assert(s.subrange(0, k).drop_last() =~= s.subrange(0, k - 1));
    }
}

proof fn lemma_all_days_prefix(s: Seq<Json>, j: int, k: int)
    requires
        0 <= j <= k <= s.len(),
        !all_days(s.subrange(0, j)),
    ensures
        !all_days(s.subrange(0, k)),
    decreases k - j,
{
    if k > j {
        lemma_all_days_prefix(s, j, k - 1);
        assert(s.subrange(0, k).drop_last() =~= s.subrange(0, k - 1));
    }
}

fn all_objects_with(items: &Vec<Json>, fields: &[&str]) -> (r: bool)
    ensures
        r == all_only(items@, fields@.map_values(|f: &str| f@)),
{
    let ghost fs = fields@.map_values(|f: &str| f@);
    let mut i: usize = 0;
    while i < items.len()
        invariant
            i <= items@.len(),
            fs == fields@.map_values(|f: &str| f@),
            all_only(items@.subrange(0, i as int), fs),
        decreases items.len() - i,
    {
        assert(items@.subrange(0, i + 1).drop_last() =~= items@.subrange(0, i as int));
        if !object_fields(&items[i], fields) {
            proof {
                lemma_all_only_prefix(items@, fs, i + 1, items@.len() as int);
                assert(items@.subrange(0, items@.len() as int) =~= items@);
            }
            return false;
        }
        i = i + 1;
    }
    assert(items@.subrange(0, items@.len() as int) =~= items@);
    true
}

fn day_allowed(day: &Json) -> (r: bool)
    ensures
        r == allowed_day(*day),
{
    let names = ["date", "amounts"];
    proof { assert(names@.map_values(|f: &str| f@) =~= day_fields()); }
    if !object_fields(day, &names) {
        return false;
    }
    match get_member(day, "amounts") {
        Some(Json::Array(amounts)) => {
            let fields = ["service", "amount"];
            proof { assert(fields@.map_values(|f: &str| f@) =~= amount_fields()); }
            all_objects_with(amounts, &fields)
        },
        _ => true,
    }
}

/// Checks the fields of a web supplement before it is read.
pub fn allowed_fields(value: &Json) -> (r: bool)
    ensures
        r == allowed(*value),
{
    let names = ["status", "message", "account", "creditsRemaining", "codeReviewRemainingPercent",
        "usageUnit", "usageBreakdown", "creditEvents", "updatedAt"];
    proof { assert(names@.map_values(|f: &str| f@) =~= snapshot_fields()); }
    if !object_fields(value, &names) {
        return false;
    }
    if let Some(Json::Array(days)) = get_member(value, "usageBreakdown") {
        let mut i: usize = 0;
        while i < days.len()
            invariant
                i <= days@.len(),
                get(*value, "usageBreakdown"@) == Some(Json::Array(*days)),
                all_days(days@.subrange(0, i as int)),
            decreases days.len() - i,
        {
            assert(days@.subrange(0, i + 1).drop_last() =~= days@.subrange(0, i as int));
            if !day_allowed(&days[i]) {
                proof {
                    lemma_all_days_prefix(days@, i + 1, days@.len() as int);
                    assert(days@.subrange(0, days@.len() as int) =~= days@);
                }
                return false;
            }
            i = i + 1;
        }
        assert(days@.subrange(0, days@.len() as int) =~= days@);
    }
    if let Some(Json::Array(events)) = get_member(value, "creditEvents") {
        let fields = ["date", "service", "credits"];
        proof { assert(fields@.map_values(|f: &str| f@) =~= event_fields()); }
        return all_objects_with(events, &fields);
    }
    true
}

/// Where a page's answer to a read stands.
#[derive(Clone, Copy, Debug, PartialEq, Eq, Structural)]
pub enum ReadStage {
    /// The answer to this read, finished: its snapshot is to be checked.
    Finished,
    /// This read is still running.
    Running,
    /// The page answered another read or nothing: it was switched or reloaded.
    Stale,
}

/// Classifies a page's answer by the read it belongs to.
pub fn read_stage(answer: Option<(u64, bool)>, request_id: u64) -> (s: ReadStage)
    ensures
        s == (match answer {
            Some((id, done)) => if id != request_id { ReadStage::Stale } else if done { ReadStage::Finished } else { ReadStage::Running },
            None => ReadStage::Stale,
        }),
{
    match answer {
        Some((id, done)) => if id != request_id { ReadStage::Stale } else if done { ReadStage::Finished } else { ReadStage::Running },
        None => ReadStage::Stale,
    }
}

/// The largest answer, in bytes, that a page may hand back.
pub const MAX_ANSWER_BYTES: usize = 524288;

pub open spec fn malformed_text() -> Seq<char> { "Codex 网页补充数据格式异常。"@ }
pub open spec fn switched_text() -> Seq<char> { "网页已切换或重新加载，请刷新使用统计。"@ }
pub open spec fn rejected_text() -> Seq<char> { "Codex 网页补充数据校验失败，请确认账号后刷新。"@ }

/// A page's answer to a read: the read it belongs to, whether it is finished,
/// and the snapshot it carries.
pub struct PageAnswer {
    pub id: u64,
    pub done: bool,
    pub snapshot: Option<Json>,
}

/// Checks a page's answer before its snapshot is decoded. `raw_len` is the
/// answer's length in bytes; `answer` is `None` where the answer does not
/// decode as a page answer, and `Some(None)` where it is `null`. An oversized
/// or undecodable answer is malformed; an answer to another read, or none, means
/// the page was switched; a running read gives nothing yet; a finished read
/// gives its snapshot, which must be present and hold only allowed fields.
pub fn answer_snapshot(raw_len: usize, answer: Option<Option<PageAnswer>>, request_id: u64) -> (r: Result<Option<Json>, String>)
    ensures
        raw_len > MAX_ANSWER_BYTES ==> (r matches Err(e) && e@ == malformed_text()),
        raw_len <= MAX_ANSWER_BYTES ==> match answer {
            None => r matches Err(e) && e@ == malformed_text(),
            Some(None) => r matches Err(e) && e@ == switched_text(),
            Some(Some(a)) => if a.id != request_id {
                r matches Err(e) && e@ == switched_text()
            } else if !a.done {
                r matches Ok(None)
            } else {
                match a.snapshot {
                    None => r matches Err(e) && e@ == malformed_text(),
                    Some(v) => if allowed(v) {
                        r matches Ok(Some(w)) && w == v
                    } else {
                        r matches Err(e) && e@ == malformed_text()
                    },
                }
            },
        },
{
    if raw_len > MAX_ANSWER_BYTES {
        return Err(String::from_str("Codex 网页补充数据格式异常。"));
    }
    let answer = match answer {
        None => { return Err(String::from_str("Codex 网页补充数据格式异常。")); },
        Some(a) => a,
    };
    let stage = match &answer {
        Some(a) => read_stage(Some((a.id, a.done)), request_id),
        None => read_stage(None, request_id),
    };
    match stage {
        ReadStage::Stale => Err(String::from_str("网页已切换或重新加载，请刷新使用统计。")),
        ReadStage::Running => Ok(None),
        ReadStage::Finished => {
            let a = match answer {
                Some(a) => a,
                None => { return Err(String::from_str("网页已切换或重新加载，请刷新使用统计。")); },
            };
            match a.snapshot {
                None => Err(String::from_str("Codex 网页补充数据格式异常。")),
                Some(v) => if allowed_fields(&v) {
                    Ok(Some(v))
                } else {
                    Err(String::from_str("Codex 网页补充数据格式异常。"))
                },
            }
        },
    }
}

/// Accepts a decoded snapshot: one that did not decode is malformed, and one
/// that fails the native checks for the expected account is rejected.
pub fn checked_snapshot(decoded: Option<WebUsageSnapshot>, expected_account: &str) -> (r: Result<WebUsageSnapshot, String>)
    ensures
        match decoded {
            None => r matches Err(e) && e@ == malformed_text(),
            Some(s) => if valid_snapshot_of(s, expected_account@) {
                r matches Ok(t) && t == s
            } else {
                r matches Err(e) && e@ == rejected_text()
            },
        },
{
    match decoded {
        None => Err(String::from_str("Codex 网页补充数据格式异常。")),
        Some(s) => if valid_snapshot(&s, expected_account) {
            Ok(s)
        } else {
            Err(String::from_str("Codex 网页补充数据校验失败，请确认账号后刷新。"))
        },
    }
}

/// The hosts that the usage page and its sign-in flows may load.
pub open spec fn allowed_host(h: Seq<char>) -> bool {
    h == "chatgpt.com"@ || h == "auth.openai.com"@ || h == "auth0.openai.com"@ || h == "auth.chatgpt.com"@
        || h == "accounts.google.com"@ || h == "login.microsoftonline.com"@ || h == "login.live.com"@
        || h == "appleid.apple.com"@
}

/// A navigation is allowed only over HTTPS on port 443, without credentials in
/// the address, to one of the allowed hosts.
pub open spec fn navigation_allowed(scheme: Seq<char>, username: Seq<char>, has_password: bool, port: Option<u16>, host: Option<Seq<char>>) -> bool {
    scheme == "https"@ && username.len() == 0 && !has_password && port == Some(443u16)
        && (host matches Some(h) && allowed_host(h))
}

/// Decides a navigation from the parts of its address: the scheme, the user
/// name, whether a password is given, the port (or the scheme's default) and
/// the host.
pub fn allowed_navigation(scheme: &str, username: &str, has_password: bool, port: Option<u16>, host: Option<&str>) -> (r: bool)
    ensures
        r == navigation_allowed(scheme@, username@, has_password, port, match host { Some(h) => Some(h@), None => None }),
{
    let h = match host {
        Some(h) => h,
        None => { return false; },
    };
    let known = str_eq(h, "chatgpt.com") || str_eq(h, "auth.openai.com") || str_eq(h, "auth0.openai.com")
        || str_eq(h, "auth.chatgpt.com") || str_eq(h, "accounts.google.com")
        || str_eq(h, "login.microsoftonline.com") || str_eq(h, "login.live.com")
        || str_eq(h, "appleid.apple.com");
    let port_ok = match port { Some(p) => p == 443u16, None => false };
    proof {
        reveal_strlit("");
        if username@.len() == 0 {
            assert(username@ =~= ""@);
        }
    }
    str_eq(scheme, "https") && str_eq(username, "") && !has_password && port_ok && known
}

/// The usage page's own origin: an allowed navigation to the usage host.
pub fn usage_origin(scheme: &str, username: &str, has_password: bool, port: Option<u16>, host: Option<&str>) -> (r: bool)
    ensures
        r == (navigation_allowed(scheme@, username@, has_password, port, match host { Some(h) => Some(h@), None => None })
            && (host matches Some(h) && h@ == "chatgpt.com"@)),
{
    let same_host = match host { Some(h) => str_eq(h, "chatgpt.com"), None => false };
    allowed_navigation(scheme, username, has_password, port, host) && same_host
}

} // verus!

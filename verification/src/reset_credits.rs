//! Reset credits: the service's count, and the credits still available,
//! unexpired and distinct, ordered by expiry. A list may be capped by the
//! service, so a count is never derived from it.
use vstd::prelude::*;
use vstd::string::*;
use vstd::utf8::encode_utf8;
use crate::json::{Json, get, present, as_text, as_u64, as_i64, deref_opt, get_member, present_value, text_of, u64_of, i64_of};
use crate::models::{ResetCredit, ResetCredits};
use crate::account_activity::bytes_lt;
use crate::quota::{opt_text_of, reset_text};
use crate::text::spec_trim;
use crate::time::{Timestamp, time_le, spec_rfc3339, spec_unix_seconds_in_range};

verus! {

/// The two wire formats: the HTTP endpoint and the local app server.
#[derive(Clone, Copy, Debug, PartialEq, Eq, Structural)]
pub enum WireFormat {
    Http,
    Cli,
}

/// What one entry of the detail list gives.
pub enum Entry {
    /// The list cannot be read.
    Unreadable,
    /// Not an available credit.
    Skip,
    /// An available credit: its trimmed id and expiry, where it has one.
    Available(Seq<char>, Option<Timestamp>),
}

pub open spec fn expiry_of(entry: Json, format: WireFormat) -> Option<Option<Timestamp>> {
    match format {
        WireFormat::Http => match get(entry, "expires_at"@) {
            None => Some(None),
            Some(Json::Null) => Some(None),
            Some(Json::Text(v)) => match spec_rfc3339(v@) {
                Some(at) => Some(Some(at)),
                None => None,
            },
            Some(_) => None,
        },
        WireFormat::Cli => match get(entry, "expiresAt"@) {
            None => Some(None),
            Some(Json::Null) => Some(None),
            Some(v) => match as_i64(Some(v)) {
                Some(s) => if spec_unix_seconds_in_range(s) { Some(Some(Timestamp { secs: s, nanos: 0 })) } else { None },
                None => None,
            },
        },
    }
}

/// An entry needs a textual status; only an available one with a non-blank
/// id and a readable expiry counts.
pub open spec fn entry_of(entry: Json, format: WireFormat) -> Entry {
    match as_text(get(entry, "status"@)) {
        None => Entry::Unreadable,
        Some(status) => if status != "available"@ {
            Entry::Skip
        } else {
            match as_text(get(entry, "id"@)) {
                None => Entry::Unreadable,
                Some(raw) => if spec_trim(raw).len() == 0 {
                    Entry::Unreadable
                } else {
                    match expiry_of(entry, format) {
                        None => Entry::Unreadable,
                        Some(e) => Entry::Available(spec_trim(raw), e),
                    }
                },
            }
        },
    }
}

/// A credit as listed: its id, how many resets it holds and the text of its expiry.
pub struct CreditModel {
    pub id: Seq<char>,
    pub remaining: nat,
    pub expires_at: Option<Seq<char>>,
}

pub open spec fn credit_model(c: ResetCredit) -> CreditModel {
    CreditModel { id: c.id@, remaining: c.remaining as nat, expires_at: opt_text_of(c.expires_at) }
}

pub open spec fn expiry_text(e: Option<Timestamp>) -> Option<Seq<char>> {
    match e {
        Some(t) => reset_text(Some(t.secs)),
        None => None,
    }
}

/// The credits kept from the first `k` entries, in list order, and the ids
/// taken; none when an entry cannot be read. An expired credit is passed over
/// without taking its id. Each listed credit stands for one reset.
pub open spec fn kept_credits(entries: Seq<Json>, format: WireFormat, now: Timestamp, k: int) -> Option<(Seq<CreditModel>, Seq<Seq<char>>)>
    decreases k,
{
    if k <= 0 {
        Some((Seq::empty(), Seq::empty()))
    } else {
        match kept_credits(entries, format, now, k - 1) {
            None => None,
            Some((list, seen)) => match entry_of(entries[k - 1], format) {
                Entry::Unreadable => None,
                Entry::Skip => Some((list, seen)),
                Entry::Available(id, e) => if (e matches Some(t) && time_le(t, now)) || seen.contains(id) {
                    Some((list, seen))
                } else {
                    Some((list.push(CreditModel { id, remaining: 1, expires_at: expiry_text(e) }), seen.push(id)))
                },
            },
        }
    }
}

/// Expiring credits first, by expiry, then the others by id.
pub open spec fn credit_before(a: CreditModel, b: CreditModel) -> bool {
    match (a.expires_at, b.expires_at) {
        (Some(x), Some(y)) => bytes_lt(encode_utf8(x), encode_utf8(y)),
        (Some(_), None) => true,
        (None, Some(_)) => false,
        (None, None) => bytes_lt(encode_utf8(a.id), encode_utf8(b.id)),
    }
}

/// Inserts after every credit that does not come after it, keeping the list
/// order of equal credits.
pub open spec fn insert_credit(sorted: Seq<CreditModel>, c: CreditModel) -> Seq<CreditModel>
    decreases sorted.len(),
{
    if sorted.len() == 0 {
        seq![c]
    } else if credit_before(c, sorted[0]) {
        seq![c] + sorted
    } else {
        seq![sorted[0]] + insert_credit(sorted.drop_first(), c)
    }
}

/// The stable order of the credits.
pub open spec fn sort_credits(list: Seq<CreditModel>) -> Seq<CreditModel>
    decreases list.len(),
{
    if list.len() == 0 { list } else { insert_credit(sort_credits(list.drop_last()), list.last()) }
}

/// The detail list: none unless it is a list whose entries can all be read.
pub open spec fn details_of(value: Json, format: WireFormat, now: Timestamp) -> Option<Seq<CreditModel>> {
    match value {
        Json::Array(entries) => match kept_credits(entries@, format, now, entries@.len() as int) {
            Some((list, _)) => Some(sort_credits(list)),
            None => None,
        },
        _ => None,
    }
}

fn bytes_less(a: &[u8], b: &[u8]) -> (r: bool)
    ensures
        r == bytes_lt(a@, b@),
{
    let mut i: usize = 0;
    assert(a@.subrange(0, a@.len() as int) =~= a@);
    assert(b@.subrange(0, b@.len() as int) =~= b@);
    while i < a.len() && i < b.len()
        invariant
            i <= a@.len(),
            i <= b@.len(),
            bytes_lt(a@, b@) == bytes_lt(a@.subrange(i as int, a@.len() as int), b@.subrange(i as int, b@.len() as int)),
        decreases a.len() - i,
    {
        let x = a[i];
        let y = b[i];
        assert(a@.subrange(i as int, a@.len() as int)[0] == x);
        assert(b@.subrange(i as int, b@.len() as int)[0] == y);
        if x < y {
            return true;
        }
        if x > y {
            return false;
        }
        assert(a@.subrange(i as int, a@.len() as int).drop_first() =~= a@.subrange(i + 1, a@.len() as int));
        assert(b@.subrange(i as int, b@.len() as int).drop_first() =~= b@.subrange(i + 1, b@.len() as int));
        i = i + 1;
    }
    i < b.len()
}

fn before(a: &ResetCredit, b: &ResetCredit) -> (r: bool)
    ensures
        r == credit_before(credit_model(*a), credit_model(*b)),
{
    match (&a.expires_at, &b.expires_at) {
        (Some(x), Some(y)) => bytes_less(x.as_str().as_bytes(), y.as_str().as_bytes()),
        (Some(_), None) => true,
        (None, Some(_)) => false,
        (None, None) => bytes_less(a.id.as_str().as_bytes(), b.id.as_str().as_bytes()),
    }
}

pub open spec fn models(v: Seq<ResetCredit>) -> Seq<CreditModel> {
    v.map_values(|c: ResetCredit| credit_model(c))
}

proof fn lemma_insert_at(sorted: Seq<CreditModel>, c: CreditModel, p: int)
    requires
        0 <= p <= sorted.len(),
        forall|j: int| 0 <= j < p ==> !credit_before(c, #[trigger] sorted[j]),
        p < sorted.len() ==> credit_before(c, sorted[p]),
    ensures
        insert_credit(sorted, c) == sorted.subrange(0, p).push(c) + sorted.subrange(p, sorted.len() as int),
    decreases sorted.len(),
{
    if sorted.len() == 0 {
        assert(seq![c] =~= sorted.subrange(0, p).push(c) + sorted.subrange(p, sorted.len() as int));
    } else if p == 0 {
        assert(seq![c] + sorted =~= sorted.subrange(0, p).push(c) + sorted.subrange(p, sorted.len() as int));
    } else {
        let rest = sorted.drop_first();
        assert forall|j: int| 0 <= j < p - 1 implies !credit_before(c, #[trigger] rest[j]) by {
            assert(rest[j] == sorted[j + 1]);
        }
        if p < sorted.len() {
            assert(rest[p - 1] == sorted[p]);
        }
        lemma_insert_at(rest, c, p - 1);
        assert(seq![sorted[0]] + (rest.subrange(0, p - 1).push(c) + rest.subrange(p - 1, rest.len() as int))
            =~= sorted.subrange(0, p).push(c) + sorted.subrange(p, sorted.len() as int));
    }
}

fn insert_position(sorted: &Vec<ResetCredit>, c: &ResetCredit) -> (p: usize)
    ensures
        p <= sorted@.len(),
        forall|j: int| 0 <= j < p ==> !credit_before(credit_model(*c), #[trigger] models(sorted@)[j]),
        p < sorted@.len() ==> credit_before(credit_model(*c), models(sorted@)[p as int]),
{
    let mut p: usize = 0;
    while p < sorted.len()
        invariant
            p <= sorted@.len(),
            forall|j: int| 0 <= j < p ==> !credit_before(credit_model(*c), #[trigger] models(sorted@)[j]),
        decreases sorted.len() - p,
    {
        if before(c, &sorted[p]) {
            return p;
        }
        p = p + 1;
    }
    p
}

/// Inserts a credit where the stable order puts it.
fn insert_in_order(sorted: &mut Vec<ResetCredit>, c: ResetCredit)
    ensures
        models(final(sorted)@) == insert_credit(models(old(sorted)@), credit_model(c)),
{
    let ghost m = models(sorted@);
    let p = insert_position(sorted, &c);
    sorted.insert(p, c);
    proof {
        lemma_insert_at(m, credit_model(c), p as int);
        assert(models(sorted@) =~= m.subrange(0, p as int).push(credit_model(c)) + m.subrange(p as int, m.len() as int));
    }
}

/// An entry as read, with its id as text.
pub enum EntryRead {
    Unreadable,
    Skip,
    Available(String, Option<Timestamp>),
}

pub open spec fn entry_read_model(e: EntryRead) -> Entry {
    match e {
        EntryRead::Unreadable => Entry::Unreadable,
        EntryRead::Skip => Entry::Skip,
        EntryRead::Available(id, t) => Entry::Available(id@, t),
    }
}

fn read_expiry(entry: &Json, format: WireFormat) -> (r: Option<Option<Timestamp>>)
    ensures
        r == expiry_of(*entry, format),
        r matches Some(Some(t)) ==> crate::time::wf_time(t),
{
    match format {
        WireFormat::Http => match get_member(entry, "expires_at") {
            None => Some(None),
            Some(Json::Null) => Some(None),
            Some(Json::Text(v)) => match crate::time::parse_rfc3339(v.as_str()) {
                Some(at) => Some(Some(at)),
                None => None,
            },
            Some(_) => None,
        },
        WireFormat::Cli => match get_member(entry, "expiresAt") {
            None => Some(None),
            Some(Json::Null) => Some(None),
            Some(v) => match i64_of(Some(v)) {
                Some(secs) => match crate::time::from_unix_seconds(secs) {
                    Some(t) => Some(Some(t)),
                    None => None,
                },
                None => None,
            },
        },
    }
}

fn read_entry(entry: &Json, format: WireFormat) -> (r: EntryRead)
    ensures
        entry_read_model(r) == entry_of(*entry, format),
{
    let status = match text_of(get_member(entry, "status")) {
        Some(s) => s,
        None => { return EntryRead::Unreadable; },
    };
    if !crate::text::str_eq(status, "available") {
        return EntryRead::Skip;
    }
    let raw = match text_of(get_member(entry, "id")) {
        Some(t) => t,
        None => { return EntryRead::Unreadable; },
    };
    let id = crate::text::trim_text(raw);
    if id.is_empty() {
        return EntryRead::Unreadable;
    }
    match read_expiry(entry, format) {
        Some(e) => EntryRead::Available(String::from_str(id), e),
        None => EntryRead::Unreadable,
    }
}

fn seen_contains(seen: &Vec<String>, id: &str) -> (found: bool)
    ensures
        found == seen@.map_values(|t: String| t@).contains(id@),
{
    let ghost ids = seen@.map_values(|t: String| t@);
    let mut i: usize = 0;
    while i < seen.len()
        invariant
            i <= seen@.len(),
            ids == seen@.map_values(|t: String| t@),
            forall|j: int| 0 <= j < i ==> ids[j] != id@,
        decreases seen.len() - i,
    {
        if crate::text::str_eq(seen[i].as_str(), id) {
            assert(ids[i as int] == id@);
            return true;
        }
        i = i + 1;
    }
    false
}

pub open spec fn opt_models(v: Option<Vec<ResetCredit>>) -> Option<Seq<CreditModel>> {
    match v {
        Some(x) => Some(models(x@)),
        None => None,
    }
}

/// Reads the detail list: the available, unexpired, distinct credits, each
/// counted once, in the stable order of `credit_before`.
pub fn parse_details(value: &Json, format: WireFormat, now: Timestamp) -> (r: Option<Vec<ResetCredit>>)
    ensures
        opt_models(r) == details_of(*value, format, now),
{
    let entries = match value {
        Json::Array(e) => e,
        _ => { return None; },
    };
    let mut sorted: Vec<ResetCredit> = Vec::new();
    let mut seen: Vec<String> = Vec::new();
    let ghost mut list: Seq<CreditModel> = Seq::empty();
    assert(models(sorted@) =~= Seq::<CreditModel>::empty());
    assert(seen@.map_values(|t: String| t@) =~= Seq::<Seq<char>>::empty());
    let mut i: usize = 0;
    while i < entries.len()
        invariant
            i <= entries@.len(),
            *value == Json::Array(*entries),
            kept_credits(entries@, format, now, i as int) == Some((list, seen@.map_values(|t: String| t@))),
            models(sorted@) == sort_credits(list),
        decreases entries.len() - i,
    {
        match read_entry(&entries[i], format) {
            EntryRead::Unreadable => {
                proof { lemma_kept_stays_none(entries@, format, now, i + 1, entries@.len() as int); }
                return None;
            },
            EntryRead::Skip => {},
            EntryRead::Available(id, e) => {
                let expired = match e {
                    Some(t) => crate::time::le(t, now),
                    None => false,
                };
                if !expired && !seen_contains(&seen, id.as_str()) {
                    let text = match e {
                        Some(t) => crate::time::utc_seconds_text(t.secs),
                        None => None,
                    };
                    let credit = ResetCredit { id: id.clone(), remaining: 1, expires_at: text };
                    let ghost old_list = list;
                    proof {
                        list = list.push(credit_model(credit));
                        assert(list.drop_last() =~= old_list);
                        assert(list.last() == credit_model(credit));
                    }
                    insert_in_order(&mut sorted, credit);
                    let ghost before_seen = seen@;
                    seen.push(id);
                    assert(seen@.map_values(|t: String| t@) =~= before_seen.map_values(|t: String| t@).push(id@));
                }
            },
        }
        i = i + 1;
    }
    Some(sorted)
}

proof fn lemma_kept_stays_none(entries: Seq<Json>, format: WireFormat, now: Timestamp, j: int, k: int)
    requires
        0 <= j <= k,
        kept_credits(entries, format, now, j) is None,
    ensures
        kept_credits(entries, format, now, k) is None,
    decreases k - j,
{
    if k > j {
        lemma_kept_stays_none(entries, format, now, j, k - 1);
    }
}

/// Reset credits with their texts as character sequences.
pub struct SummaryModel {
    pub remaining: Option<u64>,
    pub credits: Option<Seq<CreditModel>>,
    pub updated_at: Option<Seq<char>>,
    pub message: Option<Seq<char>>,
}

pub open spec fn summary_model(r: ResetCredits) -> SummaryModel {
    SummaryModel {
        remaining: r.remaining,
        credits: match r.credits {
            Some(v) => Some(models(v@)),
            None => None,
        },
        updated_at: opt_text_of(r.updated_at),
        message: opt_text_of(r.message),
    }
}

pub open spec fn opt_summary_model(r: Option<ResetCredits>) -> Option<SummaryModel> {
    match r {
        Some(x) => Some(summary_model(x)),
        None => None,
    }
}

pub open spec fn count_key(format: WireFormat) -> Seq<char> {
    match format {
        WireFormat::Http => "available_count"@,
        WireFormat::Cli => "availableCount"@,
    }
}

pub open spec fn details_unavailable_text() -> Seq<char> { "暂时无法读取重置次数明细，请稍后刷新"@ }
pub open spec fn no_count_text() -> Seq<char> { "服务未返回重置剩余数量"@ }

/// The reset credits a response reports: none without a value; the count
/// where it is a non-negative integer; the detail list where it reads, else a
/// note that the details are unavailable.
pub open spec fn summary_of(value: Option<Json>, format: WireFormat, now: Timestamp) -> Option<SummaryModel> {
    match present(value) {
        None => None,
        Some(v) => {
            let remaining = as_u64(get(v, count_key(format)));
            let now_text = reset_text(Some(now.secs));
            let base = SummaryModel {
                remaining,
                credits: None,
                updated_at: if remaining is Some { now_text } else { None },
                message: Some(details_unavailable_text()),
            };
            match present(get(v, "credits"@)) {
                Some(c) => match details_of(c, format, now) {
                    Some(list) => Some(SummaryModel {
                        remaining,
                        credits: Some(list),
                        updated_at: now_text,
                        message: if remaining is None { Some(no_count_text()) } else { None },
                    }),
                    None => Some(base),
                },
                None => Some(base),
            }
        },
    }
}

pub fn summary(value: Option<&Json>, format: WireFormat, now: Timestamp) -> (r: Option<ResetCredits>)
    ensures
        opt_summary_model(r) == summary_of(deref_opt(value), format, now),
{
    let v = match present_value(value) {
        Some(v) => v,
        None => { return None; },
    };
    let key = match format {
        WireFormat::Http => "available_count",
        WireFormat::Cli => "availableCount",
    };
    let remaining = u64_of(get_member(v, key));
    let mut result = ResetCredits {
        remaining,
        credits: None,
        updated_at: if remaining.is_some() { crate::time::utc_seconds_text(now.secs) } else { None },
        message: Some(String::from_str("暂时无法读取重置次数明细，请稍后刷新")),
    };
    if let Some(c) = present_value(get_member(v, "credits")) {
        if let Some(list) = parse_details(c, format, now) {
            result.credits = Some(list);
            result.updated_at = crate::time::utc_seconds_text(now.secs);
            result.message = if remaining.is_none() { Some(String::from_str("服务未返回重置剩余数量")) } else { None };
        }
    }
    Some(result)
}

/// Applies the HTTP detail response: a missing count keeps the count and
/// update time already known, and a count with details needs no note. A
/// count is never derived from the list.
pub open spec fn applied(current: Option<SummaryModel>, details: SummaryModel) -> SummaryModel {
    if details.remaining is None {
        let remaining = match current { Some(c) => c.remaining, None => None };
        let updated_at = if details.updated_at is None {
            match current { Some(c) => c.updated_at, None => None }
        } else {
            details.updated_at
        };
        SummaryModel {
            remaining,
            updated_at,
            message: if details.credits is Some && remaining is Some { None } else { details.message },
            ..details
        }
    } else {
        details
    }
}

pub fn apply_http_details(current: &mut Option<ResetCredits>, value: &Json, now: Timestamp)
    ensures
        match summary_of(Some(*value), WireFormat::Http, now) {
            None => opt_summary_model(*final(current)) == opt_summary_model(*old(current)),
            Some(d) => opt_summary_model(*final(current)) == Some(applied(opt_summary_model(*old(current)), d)),
        },
{
    let mut details = match summary(Some(value), WireFormat::Http, now) {
        Some(d) => d,
        None => { return; },
    };
    if details.remaining.is_none() {
        details.remaining = match current {
            Some(c) => c.remaining,
            None => None,
        };
        if details.updated_at.is_none() {
            details.updated_at = match current {
                Some(c) => crate::statistics::records::copy_text(&c.updated_at),
                None => None,
            };
        }
        if details.credits.is_some() && details.remaining.is_some() {
            details.message = None;
        }
    }
    *current = Some(details);
}

} // verus!

//! Ordering and admission rules for the disk cache of successful account
//! statistics. The file reads and writes themselves happen around these steps.
use vstd::prelude::*;
use crate::account_statistics::{AccountUsageSnapshot, WebUsageSnapshot};
use crate::models::{CodexStatisticsSource, ProviderStatus};
use crate::text::str_eq;

verus! {

/// The cache format version that this library writes and accepts.
pub const CACHE_VERSION: u32 = 1;

pub open spec fn superseded_text() -> Seq<char> { "已有更新的服务端统计请求，请读取最新缓存"@ }
pub open spec fn unscoped_text() -> Seq<char> { "无法确认本机登录范围，本次服务端数据未缓存"@ }
pub open spec fn unsaved_text() -> Seq<char> { "无法确认服务端统计缓存已保存，请重试"@ }

/// What is stored on disk: the snapshot with the scope and source it answers.
#[derive(Clone, Debug)]
pub struct Envelope {
    pub version: u32,
    pub scope: String,
    pub requested_source: CodexStatisticsSource,
    pub snapshot: AccountUsageSnapshot,
}

/// Issues increasing tickets; only the newest ticket may publish a result, so a
/// slower older request can never roll the cache back.
pub struct RequestOrder {
    pub latest: u64,
}

/// `after` and `ticket` are what beginning a request on `before` gives: the
/// next ticket, which becomes the newest.
pub open spec fn begun(before: RequestOrder, after: RequestOrder, ticket: u64) -> bool {
    after.latest == before.latest + 1 && ticket == after.latest
}

impl RequestOrder {
    pub fn new() -> (order: RequestOrder)
        ensures
            order.latest == 0,
    {
        RequestOrder { latest: 0 }
    }

    /// Starts a request and returns its ticket, which supersedes all earlier ones.
    pub fn begin(&mut self) -> (ticket: u64)
        requires
            old(self).latest < u64::MAX,
        ensures
            final(self).latest == old(self).latest + 1,
            ticket == final(self).latest,
    {
        self.latest = self.latest + 1;
        self.latest
    }

    /// Whether `ticket` is still the newest request.
    pub fn is_current(&self, ticket: u64) -> (current: bool)
        ensures
            current == (ticket == self.latest),
    {
        ticket == self.latest
    }
}

/// Tickets count up by one from a fresh order, and the ticket of the earlier
/// of two successive requests is no longer current after the later one begins.
pub proof fn law_tickets_increase(o0: RequestOrder, o1: RequestOrder, o2: RequestOrder, t1: u64, t2: u64)
    requires
        begun(o0, o1, t1),
        begun(o1, o2, t2),
    ensures
        t2 == t1 + 1,
        o0.latest == 0 ==> t1 == 1 && t2 == 2,
        t1 != o2.latest && t2 == o2.latest,
{
}

/// Beginning a new request makes every earlier ticket stale.
pub proof fn lemma_begin_supersedes(before: RequestOrder, after: RequestOrder, older: u64)
    requires
        older <= before.latest,
        after.latest == before.latest + 1,
    ensures
        older != after.latest,
{
}

/// What `finish` does next once the ticket and settings have been checked.
pub enum FinishStep {
    /// Return this snapshot without touching the disk.
    Return(AccountUsageSnapshot),
    /// Write this envelope, read it back, and then apply `transient_web`.
    Write { envelope: Envelope, transient_web: Option<WebUsageSnapshot> },
}

pub open spec fn is_ready_web(w: Option<WebUsageSnapshot>) -> bool {
    w matches Some(x) && x.status == ProviderStatus::Ready
}

/// The web part that survives the settings check.
pub open spec fn enabled_web(w: Option<WebUsageSnapshot>, enabled: bool) -> Option<WebUsageSnapshot> {
    if enabled { w } else { None }
}

pub open spec fn opt_text(m: Option<String>) -> Option<Seq<char>> {
    match m { Some(s) => Some(s@), None => None }
}

/// The message of a result that could not be cached: the notice, after any
/// message the snapshot already had.
pub open spec fn unscoped_message(existing: Option<Seq<char>>) -> Seq<char> {
    match existing {
        Some(e) => e + "；"@ + unscoped_text(),
        None => unscoped_text(),
    }
}

/// Everything but `web` and `message` is unchanged.
pub open spec fn same_data(a: AccountUsageSnapshot, b: AccountUsageSnapshot) -> bool {
    a.source == b.source && a.status == b.status && a.account == b.account && a.account_id == b.account_id
        && a.summary == b.summary && a.daily_usage == b.daily_usage
        && a.service_updated_at == b.service_updated_at && a.updated_at == b.updated_at
}

fn append_unscoped(message: Option<String>) -> (m: String)
    ensures
        m@ == unscoped_message(opt_text(message)),
{
    match message {
        Some(existing) => {
            let mut m = existing;
            m.append("；");
            m.append("无法确认本机登录范围，本次服务端数据未缓存");
            m
        },
        None => String::from_str("无法确认本机登录范围，本次服务端数据未缓存"),
    }
}

impl RequestOrder {
    /// First half of finishing a request: a stale ticket or a failed settings
    /// check ends it; the web part survives only while enabled; unsuccessful
    /// results and results without a known scope are returned uncached; otherwise
    /// only a successful web part is written, and a failed one is kept aside to be
    /// shown with the result.
    pub fn finish(
        &self,
        ticket: u64,
        web_enabled: Result<bool, String>,
        source: CodexStatisticsSource,
        scope: Option<&str>,
        snapshot: AccountUsageSnapshot,
    ) -> (step: Result<FinishStep, String>)
        ensures
            ticket != self.latest ==> (step matches Err(e) && e@ == superseded_text()),
            ticket == self.latest && web_enabled is Err ==> step == Err::<FinishStep, String>(web_enabled->Err_0),
            ticket == self.latest && web_enabled is Ok ==> step is Ok,
            step matches Ok(FinishStep::Return(s)) ==> same_data(s, snapshot)
                && (web_enabled->Ok_0 ==> s.web == snapshot.web) && (!web_enabled->Ok_0 ==> s.web is None)
                && (snapshot.status != ProviderStatus::Ready ==> s.message == snapshot.message)
                && (snapshot.status == ProviderStatus::Ready ==> scope is None
                    && (s.message matches Some(m) && m@ == unscoped_message(opt_text(snapshot.message)))),
            step matches Ok(FinishStep::Write { envelope, transient_web }) ==> snapshot.status == ProviderStatus::Ready
                && (scope matches Some(sc) && envelope.scope@ == sc@)
                && envelope.version == CACHE_VERSION && envelope.requested_source == source
                && same_data(envelope.snapshot, snapshot) && envelope.snapshot.message == snapshot.message
                && (if is_ready_web(enabled_web(snapshot.web, web_enabled->Ok_0)) {
                        envelope.snapshot.web == snapshot.web && transient_web is None
                    } else {
                        envelope.snapshot.web is None && transient_web == enabled_web(snapshot.web, web_enabled->Ok_0)
                    }),
    {
        if !self.is_current(ticket) {
            return Err(String::from_str("已有更新的服务端统计请求，请读取最新缓存"));
        }
        let enabled = match web_enabled {
            Err(e) => { return Err(e); },
            Ok(enabled) => enabled,
        };
        let mut snapshot = snapshot;
        if !enabled {
            snapshot.web = None;
        }
        if snapshot.status != ProviderStatus::Ready {
            return Ok(FinishStep::Return(snapshot));
        }
        let scope = match scope {
            None => {
                let message = append_unscoped(snapshot.message);
                snapshot.message = Some(message);
                return Ok(FinishStep::Return(snapshot));
            },
            Some(scope) => scope,
        };
        let ready_web = match &snapshot.web {
            Some(web) => web.status == ProviderStatus::Ready,
            None => false,
        };
        let transient_web = if ready_web {
            None
        } else {
            let taken = snapshot.web;
            snapshot.web = None;
            taken
        };
        Ok(FinishStep::Write {
            envelope: Envelope {
                version: 1,
                scope: String::from_str(scope),
                requested_source: source,
                snapshot,
            },
            transient_web,
        })
    }
}

/// Second half, after the envelope was written and read back: the settings are
/// checked again; a transient web notice is shown only while still enabled, and
/// a disabled web part is dropped.
pub fn finish_restore(
    restored: Option<AccountUsageSnapshot>,
    transient_web: Option<WebUsageSnapshot>,
    web_enabled: Result<bool, String>,
) -> (result: Result<AccountUsageSnapshot, String>)
    ensures
        restored is None ==> (result matches Err(e) && e@ == unsaved_text()),
        restored is Some && web_enabled is Err ==> result == Err::<AccountUsageSnapshot, String>(web_enabled->Err_0),
        result matches Ok(s) ==> (restored matches Some(r) && web_enabled matches Ok(enabled)
            && same_data(s, r) && s.message == r.message
            && s.web == (if !enabled { None } else if transient_web is Some { transient_web } else { r.web })),
        restored is Some && web_enabled is Ok ==> result is Ok,
{
    let mut restored = match restored {
        None => { return Err(String::from_str("无法确认服务端统计缓存已保存，请重试")); },
        Some(r) => r,
    };
    let enabled = match web_enabled {
        Err(e) => { return Err(e); },
        Ok(enabled) => enabled,
    };
    if enabled {
        if transient_web.is_some() {
            restored.web = transient_web;
        }
    } else {
        restored.web = None;
    }
    Ok(restored)
}

/// When a stored envelope may answer a read: the current format, the same
/// login scope and requested source, a successful non-local snapshot.
pub open spec fn envelope_matches(e: Envelope, source: CodexStatisticsSource, scope: Seq<char>) -> bool {
    e.version == CACHE_VERSION && e.scope@ == scope && e.requested_source == source
        && e.snapshot.status == ProviderStatus::Ready && e.snapshot.source != CodexStatisticsSource::Local
}

/// Admits a stored envelope as a cache hit. Missing, unreadable or corrupt
/// files arrive as `None` and are misses; so is any mismatch. The web part is
/// kept only while enabled and only when it was successful.
pub fn read_cached(
    envelope: Option<Envelope>,
    source: CodexStatisticsSource,
    scope: Option<&str>,
    web_enabled: bool,
) -> (hit: Option<AccountUsageSnapshot>)
    ensures
        hit is Some <==> (scope matches Some(sc) && (envelope matches Some(e) && envelope_matches(e, source, sc@))),
        hit matches Some(s) ==> (envelope matches Some(e) && same_data(s, e.snapshot)
            && s.message == e.snapshot.message
            && s.web == (if web_enabled && is_ready_web(e.snapshot.web) { e.snapshot.web } else { None })),
{
    let scope = match scope { None => { return None; }, Some(s) => s };
    let envelope = match envelope { None => { return None; }, Some(e) => e };
    if envelope.version != 1 || !str_eq(envelope.scope.as_str(), scope)
        || envelope.requested_source != source || envelope.snapshot.status != ProviderStatus::Ready
        || envelope.snapshot.source == CodexStatisticsSource::Local {
        return None;
    }
    let mut snapshot = envelope.snapshot;
    let keep = web_enabled && match &snapshot.web {
        Some(web) => web.status == ProviderStatus::Ready,
        None => false,
    };
    if !keep {
        snapshot.web = None;
    }
    Some(snapshot)
}

} // verus!

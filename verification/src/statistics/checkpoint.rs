//! When a cached parse of a growing log may be resumed rather than redone.
//!
//! A checkpoint records where parsing stopped, what the file looked like then,
//! and hashes of sampled byte ranges: the head, the tail and the three quarter
//! points. Reuse requires the same file, no shrinking, an unchanged
//! modification time when the length is unchanged, unchanged samples, and
//! metadata that stayed still while the samples were read.
use vstd::prelude::*;
use crate::models::ProviderId;
use crate::scope::{sha256_bytes, spec_sha256};

verus! {

/// The bytes hashed for each sample.
pub const FINGERPRINT_BYTES: u64 = 8192;

/// The device and inode of a file.
#[derive(Clone, Copy, Debug, PartialEq, Eq, Structural)]
pub struct Identity {
    pub device: u64,
    pub inode: u64,
}

/// What the file system reports of a file at one moment.
#[derive(Clone, Copy, Debug, PartialEq, Eq, Structural)]
pub struct FileState {
    pub identity: Identity,
    pub len: u64,
    pub modified_seconds: u64,
    pub modified_nanos: u32,
}

/// The hashes of a file's sampled ranges, in the order of `sample_spans`.
#[derive(Clone, Copy, Debug)]
pub struct SampledHashes {
    pub prefix_hash: [u8; 32],
    pub tail_hash: [u8; 32],
    pub interior_hashes: [[u8; 32]; 3],
}

/// Where parsing of a file stopped and what the file looked like then.
#[derive(Clone, Copy, Debug)]
pub struct Checkpoint {
    /// The next unprocessed byte, at a complete record boundary.
    pub offset: u64,
    /// Includes any incomplete trailing record that has not yet been processed.
    pub len: u64,
    pub identity: Identity,
    pub modified_seconds: u64,
    pub modified_nanos: u32,
    pub hashes: SampledHashes,
}

pub open spec fn sat_sub(a: int, b: int) -> int {
    if a >= b { a - b } else { 0 }
}

pub open spec fn min_int(a: int, b: int) -> int {
    if a <= b { a } else { b }
}

/// The range around the `index`-th quarter point (counted from zero).
pub open spec fn interior_span(len: u64, index: int) -> (int, int) {
    let start = sat_sub((len / 4) as int * (index + 1), (FINGERPRINT_BYTES / 2) as int);
    (start, min_int(min_int(start + FINGERPRINT_BYTES as int, u64::MAX as int), len as int))
}

/// The sampled ranges `[start, end)` of a file of `len` bytes: the head, the
/// tail, then the three quarter points.
pub open spec fn spans_of(len: u64) -> Seq<(int, int)> {
    seq![
        (0, min_int(len as int, FINGERPRINT_BYTES as int)),
        (sat_sub(len as int, FINGERPRINT_BYTES as int), len as int),
        interior_span(len, 0),
        interior_span(len, 1),
        interior_span(len, 2),
    ]
}

pub open spec fn span_view(s: (u64, u64)) -> (int, int) {
    (s.0 as int, s.1 as int)
}

fn interior(len: u64, index: u64) -> (span: (u64, u64))
    requires
        index < 3,
    ensures
        span_view(span) == interior_span(len, index as int),
        span.0 <= span.1 <= len,
{
    let quarter = len / 4;
    assert(quarter * (index + 1) <= len) by (nonlinear_arith)
        requires quarter == len / 4, index < 3;
    let center = quarter * (index + 1);
    let start = center.saturating_sub(FINGERPRINT_BYTES / 2);
    let end = start.saturating_add(FINGERPRINT_BYTES);
    let end = if end < len { end } else { len };
    (start, end)
}

/// The ranges to hash for a file of `len` bytes, each within the file.
pub fn sample_spans(len: u64) -> (spans: Vec<(u64, u64)>)
    ensures
        spans@.map_values(|s: (u64, u64)| span_view(s)) == spans_of(len),
        forall|i: int| 0 <= i < spans@.len() ==> (#[trigger] spans@[i]).0 <= spans@[i].1 <= len,
{
    let head = if len < FINGERPRINT_BYTES { len } else { FINGERPRINT_BYTES };
    let tail = len.saturating_sub(FINGERPRINT_BYTES);
    let spans = vec![(0u64, head), (tail, len), interior(len, 0), interior(len, 1), interior(len, 2)];
    assert(spans@.map_values(|s: (u64, u64)| span_view(s)) =~= spans_of(len));
    spans
}

/// The hashes of the sampled ranges read from a file: the head, the tail and
/// the three quarter points, in the order of `sample_spans`.
pub fn sampled_hashes(prefix: &[u8], tail: &[u8], interior: &[&[u8]; 3]) -> (s: SampledHashes)
    ensures
        s.prefix_hash@ == spec_sha256(prefix@),
        s.tail_hash@ == spec_sha256(tail@),
        forall|i: int| 0 <= i < 3 ==> (#[trigger] s.interior_hashes@[i])@ == spec_sha256(interior@[i]@),
{
    let a = sha256_bytes(interior[0]);
    let b = sha256_bytes(interior[1]);
    let c = sha256_bytes(interior[2]);
    let s = SampledHashes { prefix_hash: sha256_bytes(prefix), tail_hash: sha256_bytes(tail), interior_hashes: [a, b, c] };
    assert(s.interior_hashes@ =~= seq![a, b, c]);
    s
}

fn same_hash(a: &[u8; 32], b: &[u8; 32]) -> (same: bool)
    ensures
        same == (a@ == b@),
{
    let mut i: usize = 0;
    while i < 32
        invariant
            i <= 32,
            a@.len() == 32 && b@.len() == 32,
            forall|k: int| 0 <= k < i ==> a@[k] == b@[k],
        decreases 32 - i,
    {
        if a[i] != b[i] {
            return false;
        }
        i = i + 1;
    }
    assert(a@ =~= b@);
    true
}

pub open spec fn hashes_equal(a: SampledHashes, b: SampledHashes) -> bool {
    &&& a.prefix_hash@ == b.prefix_hash@
    &&& a.tail_hash@ == b.tail_hash@
    &&& a.interior_hashes@[0]@ == b.interior_hashes@[0]@
    &&& a.interior_hashes@[1]@ == b.interior_hashes@[1]@
    &&& a.interior_hashes@[2]@ == b.interior_hashes@[2]@
}

/// Whether the samples read now are those that the checkpoint recorded.
pub fn samples_unchanged(previous: &Checkpoint, sampled: &SampledHashes) -> (same: bool)
    ensures
        same == hashes_equal(previous.hashes, *sampled),
{
    same_hash(&previous.hashes.prefix_hash, &sampled.prefix_hash)
        && same_hash(&previous.hashes.tail_hash, &sampled.tail_hash)
        && same_hash(&previous.hashes.interior_hashes[0], &sampled.interior_hashes[0])
        && same_hash(&previous.hashes.interior_hashes[1], &sampled.interior_hashes[1])
        && same_hash(&previous.hashes.interior_hashes[2], &sampled.interior_hashes[2])
}

/// A file's metadata stayed still between two reads: same identity, length and
/// modification time.
pub fn stable_metadata(before: &FileState, after: &FileState) -> (stable: bool)
    ensures
        stable == (before == after),
{
    before.identity == after.identity && before.len == after.len
        && before.modified_seconds == after.modified_seconds && before.modified_nanos == after.modified_nanos
}

/// Whether the file may still be the one the checkpoint was taken of, grown
/// at most: a consistent checkpoint, the same identity, no shrinking, and an
/// unchanged modification time where the length is unchanged. Only then are
/// its samples read.
pub open spec fn candidate(previous: Checkpoint, current: FileState) -> bool {
    &&& previous.offset <= previous.len
    &&& current.identity == previous.identity
    &&& current.len >= previous.len
    &&& (current.len == previous.len ==> current.modified_seconds == previous.modified_seconds
        && current.modified_nanos == previous.modified_nanos)
}

pub fn append_candidate(previous: &Checkpoint, current: &FileState) -> (ok: bool)
    ensures
        ok == candidate(*previous, *current),
{
    if previous.offset > previous.len || current.identity != previous.identity || current.len < previous.len {
        return false;
    }
    !(current.len == previous.len
        && (current.modified_seconds != previous.modified_seconds || current.modified_nanos != previous.modified_nanos))
}

pub open spec fn append_allowed(
    stable_identities: bool,
    previous: Checkpoint,
    current: FileState,
    sampled: SampledHashes,
    after_open: FileState,
    after_path: FileState,
) -> bool {
    stable_identities && candidate(previous, current) && hashes_equal(previous.hashes, sampled)
        && current == after_open && current == after_path
}

/// Whether parsing may resume at the checkpoint's offset. `current` is the
/// file's state when it was opened, `sampled` the hashes of the checkpoint's
/// `sample_spans(previous.len)` read from it, and `after_open` and `after_path`
/// the states read afterwards through the open file and through its path.
/// Without stable file identities reuse is never allowed.
pub fn can_append(
    stable_identities: bool,
    previous: &Checkpoint,
    current: &FileState,
    sampled: &SampledHashes,
    after_open: &FileState,
    after_path: &FileState,
) -> (ok: bool)
    ensures
        ok == append_allowed(stable_identities, *previous, *current, *sampled, *after_open, *after_path),
{
    stable_identities && append_candidate(previous, current) && samples_unchanged(previous, sampled)
        && stable_metadata(current, after_open) && stable_metadata(current, after_path)
}

/// Records a checkpoint at `offset` of a file in state `state` with the
/// hashes of its `sample_spans(state.len)`; none where the offset lies beyond
/// the end of the file, or where the file changed while it was sampled.
pub fn checkpoint(offset: u64, state: &FileState, hashes: &SampledHashes, after_open: &FileState, after_path: &FileState) -> (c: Option<Checkpoint>)
    ensures
        c is Some == (offset <= state.len && *state == *after_open && *state == *after_path),
        c matches Some(k) ==> k.offset == offset && k.len == state.len && k.identity == state.identity
            && k.modified_seconds == state.modified_seconds && k.modified_nanos == state.modified_nanos
            && hashes_equal(k.hashes, *hashes),
{
    if offset > state.len {
        return None;
    }
    if !stable_metadata(state, after_open) || !stable_metadata(state, after_path) {
        return None;
    }
    let k = Checkpoint {
        offset,
        len: state.len,
        identity: state.identity,
        modified_seconds: state.modified_seconds,
        modified_nanos: state.modified_nanos,
        hashes: SampledHashes {
            prefix_hash: hashes.prefix_hash,
            tail_hash: hashes.tail_hash,
            interior_hashes: hashes.interior_hashes,
        },
    };
    Some(k)
}

/// A file rewritten to the same length with a new modification time is parsed
/// again in full, whatever its samples show.
pub proof fn law_equal_length_rewrite_reparses(previous: Checkpoint, current: FileState)
    requires
        current.len == previous.len,
        current.modified_seconds != previous.modified_seconds || current.modified_nanos != previous.modified_nanos,
    ensures
        !candidate(previous, current),
{
}

/// A file that shrank, or that is another file now, is parsed again in full.
pub proof fn law_shrunk_or_replaced_reparses(previous: Checkpoint, current: FileState)
    requires
        current.len < previous.len || current.identity != previous.identity,
    ensures
        !candidate(previous, current),
{
}

/// A file that only grew since its checkpoint, with its sampled ranges intact
/// and its metadata still while they were read, lets parsing resume wherever
/// file identities are stable.
pub proof fn law_untouched_growth_resumes(previous: Checkpoint, current: FileState, sampled: SampledHashes)
    requires
        previous.offset <= previous.len,
        current.identity == previous.identity,
        current.len > previous.len,
        hashes_equal(previous.hashes, sampled),
    ensures
        append_allowed(true, previous, current, sampled, current, current),
{
}

/// A checkpoint of a file that has not changed since lets parsing resume
/// where file identities are stable.
pub proof fn law_fresh_checkpoint_resumes(k: Checkpoint, state: FileState)
    requires
        k.offset <= k.len,
        k.len == state.len && k.identity == state.identity
            && k.modified_seconds == state.modified_seconds && k.modified_nanos == state.modified_nanos,
    ensures
        append_allowed(true, k, state, k.hashes, state, state),
{
}

// ---------------------------------------------------------------------------
// Reusing a cached parse.

/// Where a cached Codex parse stopped: the offset after its last complete
/// record, and whether the file then ended inside a record.
#[derive(Clone, Copy, Debug, PartialEq, Eq, Structural)]
pub struct ResumePoint {
    pub unterminated: bool,
    pub offset: u64,
}

/// A modification time: seconds and nanoseconds after the epoch.
#[derive(Clone, Copy, Debug, PartialEq, Eq, Structural)]
pub struct FileTime {
    pub seconds: u64,
    pub nanos: u32,
}

/// What the cache holds of a file besides its parse: the modification time
/// (seconds and nanoseconds after the epoch) and length it was parsed at, and
/// for Codex where its parser stopped.
#[derive(Clone, Copy, Debug, PartialEq, Eq, Structural)]
pub struct CachedMeta {
    pub modified: FileTime,
    pub len: u64,
    pub codex_state: Option<ResumePoint>,
}

/// What to do with a log file on a new collection.
#[derive(Clone, Copy, Debug, PartialEq, Eq, Structural)]
pub enum Reuse {
    /// The cached parse stands as it is.
    Skip,
    /// Parsing resumes from the cached parser state.
    Append,
    /// The file is parsed again from its start.
    Reparse,
}

/// The reuse of a cached parse. A Codex parse may be continued when it did not
/// stop inside a record and its checkpoint allows appending (`can_append`); it
/// stands as it is when, besides, the file's time and length are those it was
/// parsed at and parsing had reached the end. Another provider's parse stands
/// exactly when the time and length are unchanged. Without a cached parse the
/// file is parsed again.
pub open spec fn reuse_of(provider: ProviderId, cached: Option<CachedMeta>, modified: FileTime, len: u64, can_append: bool) -> Reuse {
    match cached {
        None => Reuse::Reparse,
        Some(c) => {
            let unchanged = c.modified == modified && c.len == len;
            if provider == ProviderId::Codex {
                let unterminated = c.codex_state matches Some(st) && st.unterminated;
                if unterminated || !can_append {
                    Reuse::Reparse
                } else if unchanged && (c.codex_state matches Some(st) && st.offset == len) {
                    Reuse::Skip
                } else {
                    Reuse::Append
                }
            } else if unchanged {
                Reuse::Skip
            } else {
                Reuse::Reparse
            }
        },
    }
}

pub fn reuse_decision(provider: ProviderId, cached: Option<CachedMeta>, modified: FileTime, len: u64, can_append: bool) -> (r: Reuse)
    ensures
        r == reuse_of(provider, cached, modified, len, can_append),
{
    let c = match cached {
        None => { return Reuse::Reparse; },
        Some(c) => c,
    };
    let unchanged = c.modified == modified && c.len == len;
    match provider {
        ProviderId::Codex => {
            let (unterminated, at_end) = match c.codex_state {
                Some(st) => (st.unterminated, st.offset == len),
                None => (false, false),
            };
            if unterminated || !can_append {
                Reuse::Reparse
            } else if unchanged && at_end {
                Reuse::Skip
            } else {
                Reuse::Append
            }
        },
        _ => if unchanged { Reuse::Skip } else { Reuse::Reparse },
    }
}

/// A file that is still as it was parsed is never parsed again: an
/// unchanged file keeps its cached parse, and a Codex file that has only grown
/// continues from where parsing stopped.
pub proof fn law_unchanged_files_are_not_reparsed(provider: ProviderId, cached: CachedMeta, modified: FileTime, len: u64)
    requires
        provider != ProviderId::Codex ==> cached.modified == modified && cached.len == len,
        provider == ProviderId::Codex ==> !(cached.codex_state matches Some(st) && st.unterminated),
    ensures
        provider != ProviderId::Codex ==> reuse_of(provider, Some(cached), modified, len, false) == Reuse::Skip,
        provider == ProviderId::Codex ==> reuse_of(provider, Some(cached), modified, len, true) != Reuse::Reparse,
{
}

/// A Codex file whose checkpoint refuses appending, or whose parse stopped
/// inside a record, is parsed again from its start.
pub proof fn law_refused_checkpoint_reparses(cached: Option<CachedMeta>, modified: FileTime, len: u64, can_append: bool)
    requires
        !can_append || (cached matches Some(c) && (c.codex_state matches Some(st) && st.unterminated)),
    ensures
        reuse_of(ProviderId::Codex, cached, modified, len, can_append) == Reuse::Reparse,
{
}

} // verus!

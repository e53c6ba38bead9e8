use agentbar::models::ProviderId;
use agentbar::statistics::checkpoint::{
    can_append, checkpoint, reuse_decision, sample_spans, CachedMeta, Checkpoint, FileState, FileTime, Identity, ResumePoint,
    Reuse, SampledHashes, sampled_hashes,
};
use sha2::{Digest, Sha256};

/// A range of the file, cut at the end of a file that has become shorter.
fn range(bytes: &[u8], span: (u64, u64)) -> &[u8] {
    let end = (span.1 as usize).min(bytes.len());
    let start = (span.0 as usize).min(end);
    &bytes[start..end]
}

/// Hashes the ranges of `bytes` that a checkpoint of a `len`-byte file samples.
fn sampled(bytes: &[u8], len: u64) -> SampledHashes {
    let spans = sample_spans(len);
    let interior: [&[u8]; 3] = [range(bytes, spans[2]), range(bytes, spans[3]), range(bytes, spans[4])];
    sampled_hashes(range(bytes, spans[0]), range(bytes, spans[1]), &interior)
}

fn state(inode: u64, len: usize, modified_seconds: u64) -> FileState {
    FileState { identity: Identity { device: 1, inode }, len: len as u64, modified_seconds, modified_nanos: 0 }
}

fn take(bytes: &[u8], offset: u64, at: FileState) -> Option<Checkpoint> {
    checkpoint(offset, &at, &sampled(bytes, at.len), &at, &at)
}

fn resumes(before: &Checkpoint, bytes: &[u8], now: FileState) -> bool {
    can_append(true, before, &now, &sampled(bytes, before.len), &now, &now)
}

#[test]
fn sample_spans_cover_head_tail_and_quarters() {
    assert_eq!(sample_spans(13), vec![(0, 13); 5]);
    assert_eq!(
        sample_spans(131_072),
        vec![(0, 8192), (122_880, 131_072), (28_672, 36_864), (61_440, 69_632), (94_208, 102_400)]
    );
}

#[test]
fn checkpoint_allows_append_after_partial_record() {
    let first = b"{\"n\":1}\n{\"n\":".to_vec();
    let before = take(&first, 8, state(7, first.len(), 100)).unwrap();
    assert_eq!(before.offset, 8);
    assert!(resumes(&before, &first, state(7, first.len(), 100)));
    let mut grown = first.clone();
    grown.extend_from_slice(b"2}\n");
    assert!(resumes(&before, &grown, state(7, grown.len(), 101)));
    assert!(!can_append(false, &before, &state(7, grown.len(), 101), &sampled(&grown, before.len), &state(7, grown.len(), 101), &state(7, grown.len(), 101)));
}

#[test]
fn truncation_replacement_and_rewrites_force_full_parse() {
    let first = b"first record\n".to_vec();
    let before = take(&first, 13, state(7, first.len(), 100)).unwrap();
    let short = b"short\n".to_vec();
    assert!(!resumes(&before, &short, state(7, short.len(), 101)));
    let other = b"other record\nmore\n".to_vec();
    assert!(!resumes(&before, &other, state(7, other.len(), 102)));
    let replacement = b"first record\nmore\n".to_vec();
    assert!(!resumes(&before, &replacement, state(8, replacement.len(), 103)));
    assert!(resumes(&before, &replacement, state(7, replacement.len(), 103)));
}

#[test]
fn same_length_change_forces_full_parse_by_modification_time() {
    let bytes = vec![b'x'; 32_768];
    let before = take(&bytes, 32_768, state(7, bytes.len(), 99)).unwrap();
    let mut changed = bytes.clone();
    changed[16_384] = b'y';
    assert!(!resumes(&before, &changed, state(7, changed.len(), 100)));
}

#[test]
fn interior_rewrite_followed_by_append_forces_full_parse() {
    let bytes = vec![b'x'; 131_072];
    let before = take(&bytes, 131_072, state(7, bytes.len(), 100)).unwrap();
    let mut changed = bytes.clone();
    changed[65_536] = b'y';
    changed.extend_from_slice(b"new record\n");
    assert!(!resumes(&before, &changed, state(7, changed.len(), 101)));
}

#[test]
fn checkpoint_refuses_offset_beyond_end_and_moving_files() {
    let bytes = b"{}\n".to_vec();
    assert!(take(&bytes, 4, state(7, bytes.len(), 100)).is_none());
    let at = state(7, bytes.len(), 100);
    let moved = state(7, bytes.len(), 101);
    assert!(checkpoint(3, &at, &sampled(&bytes, 3), &moved, &at).is_none());
    assert!(checkpoint(3, &at, &sampled(&bytes, 3), &at, &moved).is_none());
}

fn meta(seconds: u64, len: u64, state: Option<(bool, u64)>) -> CachedMeta {
    CachedMeta {
        modified: FileTime { seconds, nanos: 0 },
        len,
        codex_state: state.map(|(unterminated, offset)| ResumePoint { unterminated, offset }),
    }
}

#[test]
fn codex_files_are_skipped_continued_or_reparsed() {
    let at = |s: u64| FileTime { seconds: s, nanos: 0 };
    let done = meta(100, 40, Some((false, 40)));
    assert_eq!(reuse_decision(ProviderId::Codex, Some(done), at(100), 40, true), Reuse::Skip);
    assert_eq!(reuse_decision(ProviderId::Codex, Some(done), at(101), 55, true), Reuse::Append);
    assert_eq!(reuse_decision(ProviderId::Codex, Some(done), at(101), 55, false), Reuse::Reparse);
    let partial = meta(100, 40, Some((false, 30)));
    assert_eq!(reuse_decision(ProviderId::Codex, Some(partial), at(100), 40, true), Reuse::Append);
    let unterminated = meta(100, 40, Some((true, 30)));
    assert_eq!(reuse_decision(ProviderId::Codex, Some(unterminated), at(100), 40, true), Reuse::Reparse);
    assert_eq!(reuse_decision(ProviderId::Codex, None, at(100), 40, true), Reuse::Reparse);
}

#[test]
fn other_files_are_skipped_only_when_unchanged() {
    let at = |s: u64| FileTime { seconds: s, nanos: 0 };
    let cached = meta(100, 40, None);
    assert_eq!(reuse_decision(ProviderId::Claude, Some(cached), at(100), 40, false), Reuse::Skip);
    assert_eq!(reuse_decision(ProviderId::Claude, Some(cached), at(100), 41, true), Reuse::Reparse);
    assert_eq!(reuse_decision(ProviderId::Claude, Some(cached), at(99), 40, true), Reuse::Reparse);
    assert_eq!(reuse_decision(ProviderId::Claude, None, at(100), 40, true), Reuse::Reparse);
}

#[test]
fn sampled_hashes_are_sha256_of_each_range() {
    let interior: [&[u8]; 3] = [b"a", b"b", b""];
    let hashes = sampled_hashes(b"abc", b"", &interior);
    let expected: [u8; 32] = Sha256::digest(b"abc").into();
    assert_eq!(hashes.prefix_hash, expected);
    assert_eq!(hashes.prefix_hash[0], 0xba);
    let empty: [u8; 32] = Sha256::digest(b"").into();
    assert_eq!(hashes.tail_hash, empty);
    assert_eq!(hashes.interior_hashes[2], empty);
    let a: [u8; 32] = Sha256::digest(b"a").into();
    assert_eq!(hashes.interior_hashes[0], a);
    assert_ne!(hashes.interior_hashes[1], a);
}

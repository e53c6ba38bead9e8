//! Normalized token usage and its arithmetic.
use vstd::prelude::*;
use crate::models::ProviderId;

verus! {

/// Normalized usage of one request. `input` includes cache reads and writes for
/// both providers; `write_5m` and `write_1h` split Anthropic's cache writes by TTL.
#[derive(Clone, Copy, Debug, PartialEq, Eq, Structural)]
pub struct Usage {
    pub input: u64,
    pub cached: u64,
    pub cache_write: u64,
    pub output: u64,
    pub write_5m: u64,
    pub write_1h: u64,
}

pub open spec fn sat(v: int) -> u64 {
    if v > u64::MAX { u64::MAX } else { v as u64 }
}

pub open spec fn max_u64(a: u64, b: u64) -> u64 {
    if a >= b { a } else { b }
}

pub open spec fn min_u64(a: u64, b: u64) -> u64 {
    if a <= b { a } else { b }
}

pub open spec fn zero_usage() -> Usage {
    Usage { input: 0, cached: 0, cache_write: 0, output: 0, write_5m: 0, write_1h: 0 }
}

/// Input plus output, saturating.
pub open spec fn total_of(u: Usage) -> u64 {
    sat(u.input + u.output)
}

/// Field-wise difference, defined only when no field decreased.
pub open spec fn difference_of(current: Usage, previous: Usage) -> Option<Usage> {
    if current.input >= previous.input && current.cached >= previous.cached
        && current.cache_write >= previous.cache_write && current.output >= previous.output
        && current.write_5m >= previous.write_5m && current.write_1h >= previous.write_1h {
        Some(Usage {
            input: (current.input - previous.input) as u64,
            cached: (current.cached - previous.cached) as u64,
            cache_write: (current.cache_write - previous.cache_write) as u64,
            output: (current.output - previous.output) as u64,
            write_5m: (current.write_5m - previous.write_5m) as u64,
            write_1h: (current.write_1h - previous.write_1h) as u64,
        })
    } else {
        None
    }
}

/// Field-wise maximum.
pub open spec fn merged_max(a: Usage, b: Usage) -> Usage {
    Usage {
        input: max_u64(a.input, b.input),
        cached: max_u64(a.cached, b.cached),
        cache_write: max_u64(a.cache_write, b.cache_write),
        output: max_u64(a.output, b.output),
        write_5m: max_u64(a.write_5m, b.write_5m),
        write_1h: max_u64(a.write_1h, b.write_1h),
    }
}

fn max_of(a: u64, b: u64) -> (r: u64)
    ensures
        r == max_u64(a, b),
{
    if a >= b { a } else { b }
}

impl Usage {
    pub fn zero() -> (u: Usage)
        ensures
            u == zero_usage(),
    {
        Usage { input: 0, cached: 0, cache_write: 0, output: 0, write_5m: 0, write_1h: 0 }
    }

    /// Input plus output, saturating at the largest count.
    pub fn total(self) -> (t: u64)
        ensures
            t == total_of(self),
    {
        self.input.saturating_add(self.output)
    }

    /// What was added since `previous`, or none when any count went backwards.
    pub fn difference(self, previous: Usage) -> (d: Option<Usage>)
        ensures
            d == difference_of(self, previous),
    {
        if self.input >= previous.input && self.cached >= previous.cached
            && self.cache_write >= previous.cache_write && self.output >= previous.output
            && self.write_5m >= previous.write_5m && self.write_1h >= previous.write_1h {
            Some(Usage {
                input: self.input - previous.input,
                cached: self.cached - previous.cached,
                cache_write: self.cache_write - previous.cache_write,
                output: self.output - previous.output,
                write_5m: self.write_5m - previous.write_5m,
                write_1h: self.write_1h - previous.write_1h,
            })
        } else {
            None
        }
    }

    /// Keeps the larger value of each count: repeated chunks are cumulative.
    pub fn merge_max(&mut self, other: Usage)
        ensures
            *final(self) == merged_max(*old(self), other),
    {
        self.input = max_of(self.input, other.input);
        self.cached = max_of(self.cached, other.cached);
        self.cache_write = max_of(self.cache_write, other.cache_write);
        self.output = max_of(self.output, other.output);
        self.write_5m = max_of(self.write_5m, other.write_5m);
        self.write_1h = max_of(self.write_1h, other.write_1h);
    }
}

/// Adding back what a difference removed restores the counts it started from.
pub proof fn lemma_difference_restores(current: Usage, previous: Usage)
    requires
        difference_of(current, previous) is Some,
    ensures
        ({
            let d = difference_of(current, previous)->0;
            d.input + previous.input == current.input && d.cached + previous.cached == current.cached
                && d.cache_write + previous.cache_write == current.cache_write
                && d.output + previous.output == current.output
                && d.write_5m + previous.write_5m == current.write_5m
                && d.write_1h + previous.write_1h == current.write_1h
        }),
{
}

/// Merging is commutative, associative and idempotent, so the order in which
/// copies of one request are met does not change the merged usage.
pub proof fn lemma_merge_max_laws(a: Usage, b: Usage, c: Usage)
    ensures
        merged_max(a, b) == merged_max(b, a),
        merged_max(merged_max(a, b), c) == merged_max(a, merged_max(b, c)),
        merged_max(a, a) == a,
{
}

/// Usage fields as written in a log record, before normalization.
#[derive(Clone, Copy, Debug, PartialEq, Eq, Structural)]
pub struct RawUsage {
    pub input_tokens: u64,
    pub cached_input_tokens: u64,
    pub cache_write_input_tokens: u64,
    pub cache_read_input_tokens: u64,
    pub cache_creation_input_tokens: u64,
    pub output_tokens: u64,
    pub ephemeral_5m_input_tokens: u64,
    pub ephemeral_1h_input_tokens: u64,
}

/// Codex counts cache reads inside input (capped by it); Anthropic reports them apart.
pub open spec fn normalized_of(raw: RawUsage, provider: ProviderId) -> Usage {
    match provider {
        ProviderId::Codex => Usage {
            input: raw.input_tokens,
            cached: min_u64(max_u64(raw.cached_input_tokens, raw.cache_read_input_tokens), raw.input_tokens),
            cache_write: raw.cache_write_input_tokens,
            output: raw.output_tokens,
            write_5m: 0,
            write_1h: 0,
        },
        ProviderId::Claude => Usage {
            input: sat(raw.input_tokens + raw.cache_read_input_tokens + raw.cache_creation_input_tokens),
            cached: raw.cache_read_input_tokens,
            cache_write: raw.cache_creation_input_tokens,
            output: raw.output_tokens,
            write_5m: raw.ephemeral_5m_input_tokens,
            write_1h: raw.ephemeral_1h_input_tokens,
        },
    }
}

impl RawUsage {
    /// Normalizes provider-specific fields into one usage shape.
    pub fn normalize(self, provider: ProviderId) -> (u: Usage)
        ensures
            u == normalized_of(self, provider),
    {
        match provider {
            ProviderId::Codex => {
                let cached = max_of(self.cached_input_tokens, self.cache_read_input_tokens);
                let cached = if cached <= self.input_tokens { cached } else { self.input_tokens };
                Usage {
                    input: self.input_tokens,
                    cached,
                    cache_write: self.cache_write_input_tokens,
                    output: self.output_tokens,
                    write_5m: 0,
                    write_1h: 0,
                }
            },
            ProviderId::Claude => Usage {
                input: self.input_tokens.saturating_add(self.cache_read_input_tokens).saturating_add(
                    self.cache_creation_input_tokens,
                ),
                cached: self.cache_read_input_tokens,
                cache_write: self.cache_creation_input_tokens,
                output: self.output_tokens,
                write_5m: self.ephemeral_5m_input_tokens,
                write_1h: self.ephemeral_1h_input_tokens,
            },
        }
    }
}

/// Codex's normalization never reports more cached input than input.
pub proof fn lemma_codex_cached_within_input(raw: RawUsage)
    ensures
        normalized_of(raw, ProviderId::Codex).cached <= normalized_of(raw, ProviderId::Codex).input,
{
}

/// A cumulative snapshot as seen when its record was read: the running total,
/// the total before it, and the last request it reported.
#[derive(Clone, Copy, Debug, PartialEq, Eq, Structural)]
pub struct Snapshot {
    pub total: Usage,
    pub previous: Option<Usage>,
    pub last: Option<Usage>,
}

/// The cumulative totals a forked session inherited from its parent.
#[derive(Clone, Debug)]
pub struct ForkBaseline {
    pub parent: String,
    pub cutoff: crate::time::Timestamp,
    pub total: Usage,
    pub last: Option<Usage>,
    pub previous: Option<Usage>,
}

/// `value` minus `baseline` for the four counted fields, floored at zero; the TTL
/// split is dropped.
pub open spec fn subtract_baseline(value: Usage, baseline: Usage) -> Usage {
    Usage {
        input: if value.input >= baseline.input { (value.input - baseline.input) as u64 } else { 0 },
        cached: if value.cached >= baseline.cached { (value.cached - baseline.cached) as u64 } else { 0 },
        cache_write: if value.cache_write >= baseline.cache_write { (value.cache_write - baseline.cache_write) as u64 } else { 0 },
        output: if value.output >= baseline.output { (value.output - baseline.output) as u64 } else { 0 },
        write_5m: 0,
        write_1h: 0,
    }
}

/// The child-owned usage of a forked snapshot: its total above the inherited
/// baseline, less what the previous snapshot already owned; falls back to the
/// snapshot's own last request, then to zero.
pub open spec fn adjusted_of(fork: ForkBaseline, baseline: Usage) -> Usage {
    let current = subtract_baseline(fork.total, baseline);
    match fork.previous {
        None => current,
        Some(previous) => match difference_of(current, subtract_baseline(previous, baseline)) {
            Some(d) => d,
            None => match fork.last {
                Some(last) => last,
                None => zero_usage(),
            },
        },
    }
}

fn subtract(value: Usage, baseline: Usage) -> (u: Usage)
    ensures
        u == subtract_baseline(value, baseline),
{
    Usage {
        input: value.input.saturating_sub(baseline.input),
        cached: value.cached.saturating_sub(baseline.cached),
        cache_write: value.cache_write.saturating_sub(baseline.cache_write),
        output: value.output.saturating_sub(baseline.output),
        write_5m: 0,
        write_1h: 0,
    }
}

impl ForkBaseline {
    /// Removes the inherited parent totals from this snapshot.
    pub fn adjust(&self, baseline: Usage) -> (u: Usage)
        ensures
            u == adjusted_of(*self, baseline),
    {
        let current = subtract(self.total, baseline);
        match self.previous {
            None => current,
            Some(previous) => match current.difference(subtract(previous, baseline)) {
                Some(d) => d,
                None => match self.last {
                    Some(last) => last,
                    None => Usage::zero(),
                },
            },
        }
    }
}

/// A fork that inherited nothing keeps its own snapshot delta unchanged.
pub proof fn lemma_adjust_without_baseline(fork: ForkBaseline)
    requires
        fork.previous is None,
    ensures
        adjusted_of(fork, zero_usage()) == subtract_baseline(fork.total, zero_usage()),
{
}

} // verus!

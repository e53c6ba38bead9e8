//! Standard API-equivalent prices, exact in integers. A price is in thousandths
//! of a US dollar per million tokens, so a cost is in billionths of a dollar
//! (nano-dollars). These are estimates, never subscription charges.
use vstd::prelude::*;
use vstd::string::*;
use crate::models::ProviderId;
use crate::statistics::usage::{Usage, total_of};
use crate::text::str_eq;

verus! {

#[derive(Clone, Copy, Debug, PartialEq, Eq, Structural)]
pub enum LongContext {
    Standard,
    /// Requests above 272K input tokens pay double input and 1.5x output.
    Above272k,
    /// Above 200K input tokens the historical surcharge is unknown.
    UnknownAbove200k,
}

/// Per-million-token prices in thousandths of a dollar.
#[derive(Clone, Copy, Debug, PartialEq, Eq, Structural)]
pub struct Price {
    pub input: u64,
    pub cached: u64,
    pub write: Option<u64>,
    pub write_hour: Option<u64>,
    pub output: u64,
    pub long_context: LongContext,
}

pub open spec fn codex(input: u64, cached: u64, write: Option<u64>, output: u64, long: LongContext) -> Price {
    Price { input, cached, write, write_hour: None, output, long_context: long }
}

pub open spec fn anthropic(input: u64, cached: u64, write: u64, hour: u64, output: u64, long: LongContext) -> Price {
    Price { input, cached, write: Some(write), write_hour: Some(hour), output, long_context: long }
}

/// The published price of an exactly named model; no family or prefix fallback.
pub open spec fn price_table(provider: ProviderId, vendor: Seq<char>, m: Seq<char>) -> Option<Price> {
    match provider {
        ProviderId::Codex => {
            if m == "gpt-6-astra"@ { Some(codex(10000, 1000, Some(12500), 50000, LongContext::Above272k)) }
            else if m == "gpt-5.6-sol"@ { Some(codex(4000, 400, Some(5000), 20000, LongContext::Above272k)) }
            else if m == "gpt-5.6-terra"@ { Some(codex(2000, 200, Some(2500), 12000, LongContext::Above272k)) }
            else if m == "gpt-5.6-luna"@ { Some(codex(200, 20, Some(250), 1200, LongContext::Above272k)) }
            else if m == "gpt-5.5"@ { Some(codex(5000, 500, None, 30000, LongContext::Above272k)) }
            else if m == "gpt-5.4"@ { Some(codex(2500, 250, None, 15000, LongContext::Above272k)) }
            else if m == "gpt-5.3-codex"@ { Some(codex(1750, 175, None, 14000, LongContext::Standard)) }
            else { None }
        },
        ProviderId::Claude => {
            if m == vendor + "-opus-4-5"@ || m == vendor + "-opus-4-5-20251101"@ {
                Some(anthropic(5000, 500, 6250, 10000, 25000, LongContext::UnknownAbove200k))
            } else if m == vendor + "-opus-4-6"@ || m == vendor + "-opus-4-7"@ || m == vendor + "-opus-4-8"@
                || m == vendor + "-opus-5"@ {
                Some(anthropic(5000, 500, 6250, 10000, 25000, LongContext::Standard))
            } else if m == vendor + "-sonnet-4"@ || m == vendor + "-sonnet-4-20250514"@
                || m == vendor + "-sonnet-4-5"@ || m == vendor + "-sonnet-4-5-20250929"@ {
                Some(anthropic(3000, 300, 3750, 6000, 15000, LongContext::UnknownAbove200k))
            } else if m == vendor + "-sonnet-4-6"@ {
                Some(anthropic(3000, 300, 3750, 6000, 15000, LongContext::Standard))
            } else if m == vendor + "-sonnet-5"@ {
                Some(anthropic(2000, 200, 2500, 4000, 10000, LongContext::Standard))
            } else if m == vendor + "-haiku-4-5"@ || m == vendor + "-haiku-4-5-20251001"@ {
                Some(anthropic(1000, 100, 1250, 2000, 5000, LongContext::UnknownAbove200k))
            } else if m == vendor + "-opus-4"@ || m == vendor + "-opus-4-20250514"@ || m == vendor + "-opus-4-1"@
                || m == vendor + "-opus-4-1-20250805"@ {
                Some(anthropic(15000, 1500, 18750, 30000, 75000, LongContext::UnknownAbove200k))
            } else if m == vendor + "-3-5-haiku-20241022"@ {
                Some(anthropic(800, 80, 1000, 1600, 4000, LongContext::UnknownAbove200k))
            } else if m == vendor + "-fable-5-1"@ {
                Some(anthropic(10000, 250, 12500, 20000, 50000, LongContext::Standard))
            } else if m == vendor + "-fable-5"@ {
                Some(anthropic(10000, 1000, 12500, 20000, 50000, LongContext::Standard))
            } else { None }
        },
    }
}

/// Whether `model` is the vendor's name, then `family`.
fn is_model(model: &str, vendor: &str, family: &str) -> (r: bool)
    ensures
        r == (model@ == vendor@ + family@),
{
    let mut name = String::from_str(vendor);
    name.append(family);
    str_eq(model, name.as_str())
}

/// Looks up the price of an exactly named model. The second provider's model
/// ids begin with its vendor's name, `vendor`, and a hyphen.
pub fn lookup(provider: ProviderId, vendor: &str, model: &str) -> (price: Option<Price>)
    ensures
        price == price_table(provider, vendor@, model@),
{
    match provider {
        ProviderId::Codex => {
            if str_eq(model, "gpt-6-astra") { Some(Price { input: 10000, cached: 1000, write: Some(12500), write_hour: None, output: 50000, long_context: LongContext::Above272k }) }
            else if str_eq(model, "gpt-5.6-sol") { Some(Price { input: 4000, cached: 400, write: Some(5000), write_hour: None, output: 20000, long_context: LongContext::Above272k }) }
            else if str_eq(model, "gpt-5.6-terra") { Some(Price { input: 2000, cached: 200, write: Some(2500), write_hour: None, output: 12000, long_context: LongContext::Above272k }) }
            else if str_eq(model, "gpt-5.6-luna") { Some(Price { input: 200, cached: 20, write: Some(250), write_hour: None, output: 1200, long_context: LongContext::Above272k }) }
            else if str_eq(model, "gpt-5.5") { Some(Price { input: 5000, cached: 500, write: None, write_hour: None, output: 30000, long_context: LongContext::Above272k }) }
            else if str_eq(model, "gpt-5.4") { Some(Price { input: 2500, cached: 250, write: None, write_hour: None, output: 15000, long_context: LongContext::Above272k }) }
            else if str_eq(model, "gpt-5.3-codex") { Some(Price { input: 1750, cached: 175, write: None, write_hour: None, output: 14000, long_context: LongContext::Standard }) }
            else { None }
        },
        ProviderId::Claude => {
            if is_model(model, vendor, "-opus-4-5") || is_model(model, vendor, "-opus-4-5-20251101") {
                Some(Price { input: 5000, cached: 500, write: Some(6250), write_hour: Some(10000), output: 25000, long_context: LongContext::UnknownAbove200k })
            } else if is_model(model, vendor, "-opus-4-6") || is_model(model, vendor, "-opus-4-7")
                || is_model(model, vendor, "-opus-4-8") || is_model(model, vendor, "-opus-5") {
                Some(Price { input: 5000, cached: 500, write: Some(6250), write_hour: Some(10000), output: 25000, long_context: LongContext::Standard })
            } else if is_model(model, vendor, "-sonnet-4") || is_model(model, vendor, "-sonnet-4-20250514")
                || is_model(model, vendor, "-sonnet-4-5") || is_model(model, vendor, "-sonnet-4-5-20250929") {
                Some(Price { input: 3000, cached: 300, write: Some(3750), write_hour: Some(6000), output: 15000, long_context: LongContext::UnknownAbove200k })
            } else if is_model(model, vendor, "-sonnet-4-6") {
                Some(Price { input: 3000, cached: 300, write: Some(3750), write_hour: Some(6000), output: 15000, long_context: LongContext::Standard })
            } else if is_model(model, vendor, "-sonnet-5") {
                Some(Price { input: 2000, cached: 200, write: Some(2500), write_hour: Some(4000), output: 10000, long_context: LongContext::Standard })
            } else if is_model(model, vendor, "-haiku-4-5") || is_model(model, vendor, "-haiku-4-5-20251001") {
                Some(Price { input: 1000, cached: 100, write: Some(1250), write_hour: Some(2000), output: 5000, long_context: LongContext::UnknownAbove200k })
            } else if is_model(model, vendor, "-opus-4") || is_model(model, vendor, "-opus-4-20250514")
                || is_model(model, vendor, "-opus-4-1") || is_model(model, vendor, "-opus-4-1-20250805") {
                Some(Price { input: 15000, cached: 1500, write: Some(18750), write_hour: Some(30000), output: 75000, long_context: LongContext::UnknownAbove200k })
            } else if is_model(model, vendor, "-3-5-haiku-20241022") {
                Some(Price { input: 800, cached: 80, write: Some(1000), write_hour: Some(1600), output: 4000, long_context: LongContext::UnknownAbove200k })
            } else if is_model(model, vendor, "-fable-5-1") {
                Some(Price { input: 10000, cached: 250, write: Some(12500), write_hour: Some(20000), output: 50000, long_context: LongContext::Standard })
            } else if is_model(model, vendor, "-fable-5") {
                Some(Price { input: 10000, cached: 1000, write: Some(12500), write_hour: Some(20000), output: 50000, long_context: LongContext::Standard })
            } else { None }
        },
    }
}

/// The price that applies to one request: doubled input-side and 1.5x output
/// above 272K input tokens where the model has that tier.
pub open spec fn effective_price(p: Price, u: Usage) -> Price {
    if p.long_context == LongContext::Above272k && u.input > 272_000 {
        Price {
            input: (p.input * 2) as u64,
            cached: (p.cached * 2) as u64,
            write: match p.write { Some(w) => Some((w * 2) as u64), None => None },
            write_hour: p.write_hour,
            output: (p.output * 3 / 2) as u64,
            long_context: p.long_context,
        }
    } else {
        p
    }
}

/// Cost of the cache writes: by TTL split when present (the split must add up
/// to the total), otherwise at the default five-minute price.
pub open spec fn write_cost(u: Usage, p: Price) -> Option<int> {
    if u.cache_write == 0 {
        if u.write_5m != 0 || u.write_1h != 0 { None } else { Some(0) }
    } else if u.write_5m != 0 || u.write_1h != 0 {
        if u.write_5m + u.write_1h != u.cache_write {
            None
        } else {
            match (p.write, p.write_hour) {
                (Some(w), Some(h)) => Some(u.write_5m * w + u.write_1h * h),
                _ => None,
            }
        }
    } else {
        match p.write {
            Some(w) => Some(u.cache_write * w),
            None => None,
        }
    }
}

/// The estimated cost in nano-dollars: zero without usage; none for an unknown
/// model, impossible cache accounting, an unpriced category or an unknown
/// long-context surcharge.
pub open spec fn estimate_of(provider: ProviderId, vendor: Seq<char>, model: Option<Seq<char>>, u: Usage) -> Option<int> {
    if total_of(u) == 0 {
        Some(0)
    } else {
        match model {
            None => None,
            Some(m) => match price_table(provider, vendor, m) {
                None => None,
                Some(p) => {
                    if u.cached + u.cache_write > u.input {
                        None
                    } else if p.long_context == LongContext::UnknownAbove200k && u.input > 200_000 {
                        None
                    } else {
                        let e = effective_price(p, u);
                        match write_cost(u, e) {
                            None => None,
                            Some(w) => Some((u.input - u.cached - u.cache_write) * e.input + u.cached * e.cached
                                + w + u.output * e.output),
                        }
                    }
                },
            },
        }
    }
}

proof fn lemma_price_bounds(provider: ProviderId, vendor: Seq<char>, m: Seq<char>)
    ensures
        price_table(provider, vendor, m) matches Some(p) ==> p.input <= 15000 && p.cached <= 1500
            && (p.write matches Some(w) ==> w <= 18750) && (p.write_hour matches Some(h) ==> h <= 30000)
            && p.output <= 75000 && p.output % 2 == 0,
{
}

/// Estimates the standard API-equivalent cost of one request in nano-dollars.
pub fn estimate(provider: ProviderId, vendor: &str, model: Option<&str>, usage: Usage) -> (cost: Option<u128>)
    ensures
        match cost {
            Some(c) => estimate_of(provider, vendor@, match model { Some(m) => Some(m@), None => None }, usage) == Some(c as int),
            None => estimate_of(provider, vendor@, match model { Some(m) => Some(m@), None => None }, usage) is None,
        },
{
    if usage.total() == 0 {
        return Some(0);
    }
    let model = match model { None => { return None; }, Some(m) => m };
    let price = match lookup(provider, vendor, model) { None => { return None; }, Some(p) => p };
    proof { lemma_price_bounds(provider, vendor@, model@); }
    if usage.cached as u128 + usage.cache_write as u128 > usage.input as u128 {
        return None;
    }
    let ordinary: u64 = usage.input - usage.cached - usage.cache_write;
    let long = match price.long_context { LongContext::Above272k => true, _ => false };
    let unknown = match price.long_context { LongContext::UnknownAbove200k => true, _ => false };
    if unknown && usage.input > 200_000 {
        return None;
    }
    let p = if long && usage.input > 272_000 {
        Price {
            input: price.input * 2,
            cached: price.cached * 2,
            write: match price.write { Some(w) => Some(w * 2), None => None },
            write_hour: price.write_hour,
            output: price.output * 3 / 2,
            long_context: price.long_context,
        }
    } else {
        price
    };
    assert(p == effective_price(price, usage));
    assert(p.input <= 30000 && p.cached <= 3000 && p.output <= 112500);
    let write: u128 = if usage.cache_write == 0 {
        if usage.write_5m != 0 || usage.write_1h != 0 {
            return None;
        }
        0
    } else if usage.write_5m != 0 || usage.write_1h != 0 {
        if usage.write_5m as u128 + usage.write_1h as u128 != usage.cache_write as u128 {
            return None;
        }
        match (p.write, p.write_hour) {
            (Some(w), Some(h)) => {
                assert(w <= 37500 && h <= 30000);
                assert(usage.write_5m * w <= u64::MAX * 37500) by (nonlinear_arith)
                    requires w <= 37500;
                assert(usage.write_1h * h <= u64::MAX * 30000) by (nonlinear_arith)
                    requires h <= 30000;
                usage.write_5m as u128 * w as u128 + usage.write_1h as u128 * h as u128
            },
            _ => { return None; },
        }
    } else {
        match p.write {
            Some(w) => {
                assert(usage.cache_write * w <= u64::MAX * 37500) by (nonlinear_arith)
                    requires w <= 37500;
                usage.cache_write as u128 * w as u128
            },
            None => { return None; },
        }
    };
    assert(ordinary * p.input <= u64::MAX * 30000) by (nonlinear_arith)
        requires p.input <= 30000;
    assert(usage.cached * p.cached <= u64::MAX * 3000) by (nonlinear_arith)
        requires p.cached <= 3000;
    assert(usage.output * p.output <= u64::MAX * 112500) by (nonlinear_arith)
        requires p.output <= 112500;
    Some(ordinary as u128 * p.input as u128 + usage.cached as u128 * p.cached as u128 + write
        + usage.output as u128 * p.output as u128)
}

/// The published Codex price list, per million tokens in thousandths of a
/// dollar: each model id has exactly these prices, and a family name without a
/// version has none.
pub proof fn law_codex_price_list(vendor: Seq<char>)
    ensures
        price_table(ProviderId::Codex, vendor, "gpt-6-astra"@) == Some(Price { input: 10000, cached: 1000, write: Some(12500), write_hour: None, output: 50000, long_context: LongContext::Above272k }),
        price_table(ProviderId::Codex, vendor, "gpt-5.6-sol"@) == Some(Price { input: 4000, cached: 400, write: Some(5000), write_hour: None, output: 20000, long_context: LongContext::Above272k }),
        price_table(ProviderId::Codex, vendor, "gpt-5.6-terra"@) == Some(Price { input: 2000, cached: 200, write: Some(2500), write_hour: None, output: 12000, long_context: LongContext::Above272k }),
        price_table(ProviderId::Codex, vendor, "gpt-5.6-luna"@) == Some(Price { input: 200, cached: 20, write: Some(250), write_hour: None, output: 1200, long_context: LongContext::Above272k }),
        price_table(ProviderId::Codex, vendor, "gpt-5.5"@) == Some(Price { input: 5000, cached: 500, write: None, write_hour: None, output: 30000, long_context: LongContext::Above272k }),
        price_table(ProviderId::Codex, vendor, "gpt-5.4"@) == Some(Price { input: 2500, cached: 250, write: None, write_hour: None, output: 15000, long_context: LongContext::Above272k }),
        price_table(ProviderId::Codex, vendor, "gpt-5.3-codex"@) == Some(Price { input: 1750, cached: 175, write: None, write_hour: None, output: 14000, long_context: LongContext::Standard }),
        price_table(ProviderId::Codex, vendor, "gpt-5"@) is None,
{
    reveal_strlit("gpt-6-astra");
    assert("gpt-6-astra"@.len() == 11 && "gpt-6-astra"@[0] == 'g' && "gpt-6-astra"@[1] == 'p' && "gpt-6-astra"@[2] == 't' && "gpt-6-astra"@[3] == '-' && "gpt-6-astra"@[4] == '6' && "gpt-6-astra"@[5] == '-' && "gpt-6-astra"@[6] == 'a' && "gpt-6-astra"@[7] == 's' && "gpt-6-astra"@[8] == 't' && "gpt-6-astra"@[9] == 'r' && "gpt-6-astra"@[10] == 'a');
    reveal_strlit("gpt-5.6-sol");
    assert("gpt-5.6-sol"@.len() == 11 && "gpt-5.6-sol"@[0] == 'g' && "gpt-5.6-sol"@[1] == 'p' && "gpt-5.6-sol"@[2] == 't' && "gpt-5.6-sol"@[3] == '-' && "gpt-5.6-sol"@[4] == '5' && "gpt-5.6-sol"@[5] == '.' && "gpt-5.6-sol"@[6] == '6' && "gpt-5.6-sol"@[7] == '-' && "gpt-5.6-sol"@[8] == 's' && "gpt-5.6-sol"@[9] == 'o' && "gpt-5.6-sol"@[10] == 'l');
    reveal_strlit("gpt-5.6-terra");
    assert("gpt-5.6-terra"@.len() == 13 && "gpt-5.6-terra"@[0] == 'g' && "gpt-5.6-terra"@[1] == 'p' && "gpt-5.6-terra"@[2] == 't' && "gpt-5.6-terra"@[3] == '-' && "gpt-5.6-terra"@[4] == '5' && "gpt-5.6-terra"@[5] == '.' && "gpt-5.6-terra"@[6] == '6' && "gpt-5.6-terra"@[7] == '-' && "gpt-5.6-terra"@[8] == 't' && "gpt-5.6-terra"@[9] == 'e' && "gpt-5.6-terra"@[10] == 'r' && "gpt-5.6-terra"@[11] == 'r' && "gpt-5.6-terra"@[12] == 'a');
    reveal_strlit("gpt-5.6-luna");
    assert("gpt-5.6-luna"@.len() == 12 && "gpt-5.6-luna"@[0] == 'g' && "gpt-5.6-luna"@[1] == 'p' && "gpt-5.6-luna"@[2] == 't' && "gpt-5.6-luna"@[3] == '-' && "gpt-5.6-luna"@[4] == '5' && "gpt-5.6-luna"@[5] == '.' && "gpt-5.6-luna"@[6] == '6' && "gpt-5.6-luna"@[7] == '-' && "gpt-5.6-luna"@[8] == 'l' && "gpt-5.6-luna"@[9] == 'u' && "gpt-5.6-luna"@[10] == 'n' && "gpt-5.6-luna"@[11] == 'a');
    reveal_strlit("gpt-5.5");
    assert("gpt-5.5"@.len() == 7 && "gpt-5.5"@[0] == 'g' && "gpt-5.5"@[1] == 'p' && "gpt-5.5"@[2] == 't' && "gpt-5.5"@[3] == '-' && "gpt-5.5"@[4] == '5' && "gpt-5.5"@[5] == '.' && "gpt-5.5"@[6] == '5');
    reveal_strlit("gpt-5.4");
    assert("gpt-5.4"@.len() == 7 && "gpt-5.4"@[0] == 'g' && "gpt-5.4"@[1] == 'p' && "gpt-5.4"@[2] == 't' && "gpt-5.4"@[3] == '-' && "gpt-5.4"@[4] == '5' && "gpt-5.4"@[5] == '.' && "gpt-5.4"@[6] == '4');
    reveal_strlit("gpt-5.3-codex");
    assert("gpt-5.3-codex"@.len() == 13 && "gpt-5.3-codex"@[0] == 'g' && "gpt-5.3-codex"@[1] == 'p' && "gpt-5.3-codex"@[2] == 't' && "gpt-5.3-codex"@[3] == '-' && "gpt-5.3-codex"@[4] == '5' && "gpt-5.3-codex"@[5] == '.' && "gpt-5.3-codex"@[6] == '3' && "gpt-5.3-codex"@[7] == '-' && "gpt-5.3-codex"@[8] == 'c' && "gpt-5.3-codex"@[9] == 'o' && "gpt-5.3-codex"@[10] == 'd' && "gpt-5.3-codex"@[11] == 'e' && "gpt-5.3-codex"@[12] == 'x');
    reveal_strlit("gpt-5");
    assert("gpt-5"@.len() == 5 && "gpt-5"@[0] == 'g' && "gpt-5"@[1] == 'p' && "gpt-5"@[2] == 't' && "gpt-5"@[3] == '-' && "gpt-5"@[4] == '5');
}

proof fn lemma_same_prefix(v: Seq<char>, a: Seq<char>, b: Seq<char>)
    ensures
        (v + a == v + b) == (a == b),
{
    if v + a == v + b {
        assert((v + a).subrange(v.len() as int, (v + a).len() as int) =~= a);
        assert((v + b).subrange(v.len() as int, (v + b).len() as int) =~= b);
    }
}

/// The published Anthropic price list, per million tokens in thousandths of a
/// dollar, for model ids made of the vendor's name and the model's name: each
/// has exactly these prices, including the five-minute and one-hour cache
/// writes, and a family name without a version has none.
pub proof fn law_anthropic_price_list(vendor: Seq<char>)
    ensures
        price_table(ProviderId::Claude, vendor, vendor + "-opus-4-5"@) == Some(Price { input: 5000, cached: 500, write: Some(6250), write_hour: Some(10000), output: 25000, long_context: LongContext::UnknownAbove200k }),
        price_table(ProviderId::Claude, vendor, vendor + "-opus-4-5-20251101"@) == Some(Price { input: 5000, cached: 500, write: Some(6250), write_hour: Some(10000), output: 25000, long_context: LongContext::UnknownAbove200k }),
        price_table(ProviderId::Claude, vendor, vendor + "-opus-4-6"@) == Some(Price { input: 5000, cached: 500, write: Some(6250), write_hour: Some(10000), output: 25000, long_context: LongContext::Standard }),
        price_table(ProviderId::Claude, vendor, vendor + "-opus-4-7"@) == Some(Price { input: 5000, cached: 500, write: Some(6250), write_hour: Some(10000), output: 25000, long_context: LongContext::Standard }),
        price_table(ProviderId::Claude, vendor, vendor + "-opus-4-8"@) == Some(Price { input: 5000, cached: 500, write: Some(6250), write_hour: Some(10000), output: 25000, long_context: LongContext::Standard }),
        price_table(ProviderId::Claude, vendor, vendor + "-opus-5"@) == Some(Price { input: 5000, cached: 500, write: Some(6250), write_hour: Some(10000), output: 25000, long_context: LongContext::Standard }),
        price_table(ProviderId::Claude, vendor, vendor + "-sonnet-4"@) == Some(Price { input: 3000, cached: 300, write: Some(3750), write_hour: Some(6000), output: 15000, long_context: LongContext::UnknownAbove200k }),
        price_table(ProviderId::Claude, vendor, vendor + "-sonnet-4-20250514"@) == Some(Price { input: 3000, cached: 300, write: Some(3750), write_hour: Some(6000), output: 15000, long_context: LongContext::UnknownAbove200k }),
        price_table(ProviderId::Claude, vendor, vendor + "-sonnet-4-5"@) == Some(Price { input: 3000, cached: 300, write: Some(3750), write_hour: Some(6000), output: 15000, long_context: LongContext::UnknownAbove200k }),
        price_table(ProviderId::Claude, vendor, vendor + "-sonnet-4-5-20250929"@) == Some(Price { input: 3000, cached: 300, write: Some(3750), write_hour: Some(6000), output: 15000, long_context: LongContext::UnknownAbove200k }),
        price_table(ProviderId::Claude, vendor, vendor + "-sonnet-4-6"@) == Some(Price { input: 3000, cached: 300, write: Some(3750), write_hour: Some(6000), output: 15000, long_context: LongContext::Standard }),
        price_table(ProviderId::Claude, vendor, vendor + "-sonnet-5"@) == Some(Price { input: 2000, cached: 200, write: Some(2500), write_hour: Some(4000), output: 10000, long_context: LongContext::Standard }),
        price_table(ProviderId::Claude, vendor, vendor + "-haiku-4-5"@) == Some(Price { input: 1000, cached: 100, write: Some(1250), write_hour: Some(2000), output: 5000, long_context: LongContext::UnknownAbove200k }),
        price_table(ProviderId::Claude, vendor, vendor + "-haiku-4-5-20251001"@) == Some(Price { input: 1000, cached: 100, write: Some(1250), write_hour: Some(2000), output: 5000, long_context: LongContext::UnknownAbove200k }),
        price_table(ProviderId::Claude, vendor, vendor + "-opus-4"@) == Some(Price { input: 15000, cached: 1500, write: Some(18750), write_hour: Some(30000), output: 75000, long_context: LongContext::UnknownAbove200k }),
        price_table(ProviderId::Claude, vendor, vendor + "-opus-4-20250514"@) == Some(Price { input: 15000, cached: 1500, write: Some(18750), write_hour: Some(30000), output: 75000, long_context: LongContext::UnknownAbove200k }),
        price_table(ProviderId::Claude, vendor, vendor + "-opus-4-1"@) == Some(Price { input: 15000, cached: 1500, write: Some(18750), write_hour: Some(30000), output: 75000, long_context: LongContext::UnknownAbove200k }),
        price_table(ProviderId::Claude, vendor, vendor + "-opus-4-1-20250805"@) == Some(Price { input: 15000, cached: 1500, write: Some(18750), write_hour: Some(30000), output: 75000, long_context: LongContext::UnknownAbove200k }),
        price_table(ProviderId::Claude, vendor, vendor + "-3-5-haiku-20241022"@) == Some(Price { input: 800, cached: 80, write: Some(1000), write_hour: Some(1600), output: 4000, long_context: LongContext::UnknownAbove200k }),
        price_table(ProviderId::Claude, vendor, vendor + "-fable-5-1"@) == Some(Price { input: 10000, cached: 250, write: Some(12500), write_hour: Some(20000), output: 50000, long_context: LongContext::Standard }),
        price_table(ProviderId::Claude, vendor, vendor + "-fable-5"@) == Some(Price { input: 10000, cached: 1000, write: Some(12500), write_hour: Some(20000), output: 50000, long_context: LongContext::Standard }),
        price_table(ProviderId::Claude, vendor, vendor + "-opus"@) is None,
{
    reveal_strlit("-opus-4-5");
    assert("-opus-4-5"@.len() == 9 && "-opus-4-5"@[0] == '-' && "-opus-4-5"@[1] == 'o' && "-opus-4-5"@[2] == 'p' && "-opus-4-5"@[3] == 'u' && "-opus-4-5"@[4] == 's' && "-opus-4-5"@[5] == '-' && "-opus-4-5"@[6] == '4' && "-opus-4-5"@[7] == '-' && "-opus-4-5"@[8] == '5');
    reveal_strlit("-opus-4-5-20251101");
    assert("-opus-4-5-20251101"@.len() == 18 && "-opus-4-5-20251101"@[0] == '-' && "-opus-4-5-20251101"@[1] == 'o' && "-opus-4-5-20251101"@[2] == 'p' && "-opus-4-5-20251101"@[3] == 'u' && "-opus-4-5-20251101"@[4] == 's' && "-opus-4-5-20251101"@[5] == '-' && "-opus-4-5-20251101"@[6] == '4' && "-opus-4-5-20251101"@[7] == '-' && "-opus-4-5-20251101"@[8] == '5' && "-opus-4-5-20251101"@[9] == '-' && "-opus-4-5-20251101"@[10] == '2' && "-opus-4-5-20251101"@[11] == '0' && "-opus-4-5-20251101"@[12] == '2' && "-opus-4-5-20251101"@[13] == '5' && "-opus-4-5-20251101"@[14] == '1' && "-opus-4-5-20251101"@[15] == '1' && "-opus-4-5-20251101"@[16] == '0' && "-opus-4-5-20251101"@[17] == '1');
    reveal_strlit("-opus-4-6");
    assert("-opus-4-6"@.len() == 9 && "-opus-4-6"@[0] == '-' && "-opus-4-6"@[1] == 'o' && "-opus-4-6"@[2] == 'p' && "-opus-4-6"@[3] == 'u' && "-opus-4-6"@[4] == 's' && "-opus-4-6"@[5] == '-' && "-opus-4-6"@[6] == '4' && "-opus-4-6"@[7] == '-' && "-opus-4-6"@[8] == '6');
    reveal_strlit("-opus-4-7");
    assert("-opus-4-7"@.len() == 9 && "-opus-4-7"@[0] == '-' && "-opus-4-7"@[1] == 'o' && "-opus-4-7"@[2] == 'p' && "-opus-4-7"@[3] == 'u' && "-opus-4-7"@[4] == 's' && "-opus-4-7"@[5] == '-' && "-opus-4-7"@[6] == '4' && "-opus-4-7"@[7] == '-' && "-opus-4-7"@[8] == '7');
    reveal_strlit("-opus-4-8");
    assert("-opus-4-8"@.len() == 9 && "-opus-4-8"@[0] == '-' && "-opus-4-8"@[1] == 'o' && "-opus-4-8"@[2] == 'p' && "-opus-4-8"@[3] == 'u' && "-opus-4-8"@[4] == 's' && "-opus-4-8"@[5] == '-' && "-opus-4-8"@[6] == '4' && "-opus-4-8"@[7] == '-' && "-opus-4-8"@[8] == '8');
    reveal_strlit("-opus-5");
    assert("-opus-5"@.len() == 7 && "-opus-5"@[0] == '-' && "-opus-5"@[1] == 'o' && "-opus-5"@[2] == 'p' && "-opus-5"@[3] == 'u' && "-opus-5"@[4] == 's' && "-opus-5"@[5] == '-' && "-opus-5"@[6] == '5');
    reveal_strlit("-sonnet-4");
    assert("-sonnet-4"@.len() == 9 && "-sonnet-4"@[0] == '-' && "-sonnet-4"@[1] == 's' && "-sonnet-4"@[2] == 'o' && "-sonnet-4"@[3] == 'n' && "-sonnet-4"@[4] == 'n' && "-sonnet-4"@[5] == 'e' && "-sonnet-4"@[6] == 't' && "-sonnet-4"@[7] == '-' && "-sonnet-4"@[8] == '4');
    reveal_strlit("-sonnet-4-20250514");
    assert("-sonnet-4-20250514"@.len() == 18 && "-sonnet-4-20250514"@[0] == '-' && "-sonnet-4-20250514"@[1] == 's' && "-sonnet-4-20250514"@[2] == 'o' && "-sonnet-4-20250514"@[3] == 'n' && "-sonnet-4-20250514"@[4] == 'n' && "-sonnet-4-20250514"@[5] == 'e' && "-sonnet-4-20250514"@[6] == 't' && "-sonnet-4-20250514"@[7] == '-' && "-sonnet-4-20250514"@[8] == '4' && "-sonnet-4-20250514"@[9] == '-' && "-sonnet-4-20250514"@[10] == '2' && "-sonnet-4-20250514"@[11] == '0' && "-sonnet-4-20250514"@[12] == '2' && "-sonnet-4-20250514"@[13] == '5' && "-sonnet-4-20250514"@[14] == '0' && "-sonnet-4-20250514"@[15] == '5' && "-sonnet-4-20250514"@[16] == '1' && "-sonnet-4-20250514"@[17] == '4');
    reveal_strlit("-sonnet-4-5");
    assert("-sonnet-4-5"@.len() == 11 && "-sonnet-4-5"@[0] == '-' && "-sonnet-4-5"@[1] == 's' && "-sonnet-4-5"@[2] == 'o' && "-sonnet-4-5"@[3] == 'n' && "-sonnet-4-5"@[4] == 'n' && "-sonnet-4-5"@[5] == 'e' && "-sonnet-4-5"@[6] == 't' && "-sonnet-4-5"@[7] == '-' && "-sonnet-4-5"@[8] == '4' && "-sonnet-4-5"@[9] == '-' && "-sonnet-4-5"@[10] == '5');
    reveal_strlit("-sonnet-4-5-20250929");
    assert("-sonnet-4-5-20250929"@.len() == 20 && "-sonnet-4-5-20250929"@[0] == '-' && "-sonnet-4-5-20250929"@[1] == 's' && "-sonnet-4-5-20250929"@[2] == 'o' && "-sonnet-4-5-20250929"@[3] == 'n' && "-sonnet-4-5-20250929"@[4] == 'n' && "-sonnet-4-5-20250929"@[5] == 'e' && "-sonnet-4-5-20250929"@[6] == 't' && "-sonnet-4-5-20250929"@[7] == '-' && "-sonnet-4-5-20250929"@[8] == '4' && "-sonnet-4-5-20250929"@[9] == '-' && "-sonnet-4-5-20250929"@[10] == '5' && "-sonnet-4-5-20250929"@[11] == '-' && "-sonnet-4-5-20250929"@[12] == '2' && "-sonnet-4-5-20250929"@[13] == '0' && "-sonnet-4-5-20250929"@[14] == '2' && "-sonnet-4-5-20250929"@[15] == '5' && "-sonnet-4-5-20250929"@[16] == '0' && "-sonnet-4-5-20250929"@[17] == '9' && "-sonnet-4-5-20250929"@[18] == '2' && "-sonnet-4-5-20250929"@[19] == '9');
    reveal_strlit("-sonnet-4-6");
    assert("-sonnet-4-6"@.len() == 11 && "-sonnet-4-6"@[0] == '-' && "-sonnet-4-6"@[1] == 's' && "-sonnet-4-6"@[2] == 'o' && "-sonnet-4-6"@[3] == 'n' && "-sonnet-4-6"@[4] == 'n' && "-sonnet-4-6"@[5] == 'e' && "-sonnet-4-6"@[6] == 't' && "-sonnet-4-6"@[7] == '-' && "-sonnet-4-6"@[8] == '4' && "-sonnet-4-6"@[9] == '-' && "-sonnet-4-6"@[10] == '6');
    reveal_strlit("-sonnet-5");
    assert("-sonnet-5"@.len() == 9 && "-sonnet-5"@[0] == '-' && "-sonnet-5"@[1] == 's' && "-sonnet-5"@[2] == 'o' && "-sonnet-5"@[3] == 'n' && "-sonnet-5"@[4] == 'n' && "-sonnet-5"@[5] == 'e' && "-sonnet-5"@[6] == 't' && "-sonnet-5"@[7] == '-' && "-sonnet-5"@[8] == '5');
    reveal_strlit("-haiku-4-5");
    assert("-haiku-4-5"@.len() == 10 && "-haiku-4-5"@[0] == '-' && "-haiku-4-5"@[1] == 'h' && "-haiku-4-5"@[2] == 'a' && "-haiku-4-5"@[3] == 'i' && "-haiku-4-5"@[4] == 'k' && "-haiku-4-5"@[5] == 'u' && "-haiku-4-5"@[6] == '-' && "-haiku-4-5"@[7] == '4' && "-haiku-4-5"@[8] == '-' && "-haiku-4-5"@[9] == '5');
    reveal_strlit("-haiku-4-5-20251001");
    assert("-haiku-4-5-20251001"@.len() == 19 && "-haiku-4-5-20251001"@[0] == '-' && "-haiku-4-5-20251001"@[1] == 'h' && "-haiku-4-5-20251001"@[2] == 'a' && "-haiku-4-5-20251001"@[3] == 'i' && "-haiku-4-5-20251001"@[4] == 'k' && "-haiku-4-5-20251001"@[5] == 'u' && "-haiku-4-5-20251001"@[6] == '-' && "-haiku-4-5-20251001"@[7] == '4' && "-haiku-4-5-20251001"@[8] == '-' && "-haiku-4-5-20251001"@[9] == '5' && "-haiku-4-5-20251001"@[10] == '-' && "-haiku-4-5-20251001"@[11] == '2' && "-haiku-4-5-20251001"@[12] == '0' && "-haiku-4-5-20251001"@[13] == '2' && "-haiku-4-5-20251001"@[14] == '5' && "-haiku-4-5-20251001"@[15] == '1' && "-haiku-4-5-20251001"@[16] == '0' && "-haiku-4-5-20251001"@[17] == '0' && "-haiku-4-5-20251001"@[18] == '1');
    reveal_strlit("-opus-4");
    assert("-opus-4"@.len() == 7 && "-opus-4"@[0] == '-' && "-opus-4"@[1] == 'o' && "-opus-4"@[2] == 'p' && "-opus-4"@[3] == 'u' && "-opus-4"@[4] == 's' && "-opus-4"@[5] == '-' && "-opus-4"@[6] == '4');
    reveal_strlit("-opus-4-20250514");
    assert("-opus-4-20250514"@.len() == 16 && "-opus-4-20250514"@[0] == '-' && "-opus-4-20250514"@[1] == 'o' && "-opus-4-20250514"@[2] == 'p' && "-opus-4-20250514"@[3] == 'u' && "-opus-4-20250514"@[4] == 's' && "-opus-4-20250514"@[5] == '-' && "-opus-4-20250514"@[6] == '4' && "-opus-4-20250514"@[7] == '-' && "-opus-4-20250514"@[8] == '2' && "-opus-4-20250514"@[9] == '0' && "-opus-4-20250514"@[10] == '2' && "-opus-4-20250514"@[11] == '5' && "-opus-4-20250514"@[12] == '0' && "-opus-4-20250514"@[13] == '5' && "-opus-4-20250514"@[14] == '1' && "-opus-4-20250514"@[15] == '4');
    reveal_strlit("-opus-4-1");
    assert("-opus-4-1"@.len() == 9 && "-opus-4-1"@[0] == '-' && "-opus-4-1"@[1] == 'o' && "-opus-4-1"@[2] == 'p' && "-opus-4-1"@[3] == 'u' && "-opus-4-1"@[4] == 's' && "-opus-4-1"@[5] == '-' && "-opus-4-1"@[6] == '4' && "-opus-4-1"@[7] == '-' && "-opus-4-1"@[8] == '1');
    reveal_strlit("-opus-4-1-20250805");
    assert("-opus-4-1-20250805"@.len() == 18 && "-opus-4-1-20250805"@[0] == '-' && "-opus-4-1-20250805"@[1] == 'o' && "-opus-4-1-20250805"@[2] == 'p' && "-opus-4-1-20250805"@[3] == 'u' && "-opus-4-1-20250805"@[4] == 's' && "-opus-4-1-20250805"@[5] == '-' && "-opus-4-1-20250805"@[6] == '4' && "-opus-4-1-20250805"@[7] == '-' && "-opus-4-1-20250805"@[8] == '1' && "-opus-4-1-20250805"@[9] == '-' && "-opus-4-1-20250805"@[10] == '2' && "-opus-4-1-20250805"@[11] == '0' && "-opus-4-1-20250805"@[12] == '2' && "-opus-4-1-20250805"@[13] == '5' && "-opus-4-1-20250805"@[14] == '0' && "-opus-4-1-20250805"@[15] == '8' && "-opus-4-1-20250805"@[16] == '0' && "-opus-4-1-20250805"@[17] == '5');
    reveal_strlit("-3-5-haiku-20241022");
    assert("-3-5-haiku-20241022"@.len() == 19 && "-3-5-haiku-20241022"@[0] == '-' && "-3-5-haiku-20241022"@[1] == '3' && "-3-5-haiku-20241022"@[2] == '-' && "-3-5-haiku-20241022"@[3] == '5' && "-3-5-haiku-20241022"@[4] == '-' && "-3-5-haiku-20241022"@[5] == 'h' && "-3-5-haiku-20241022"@[6] == 'a' && "-3-5-haiku-20241022"@[7] == 'i' && "-3-5-haiku-20241022"@[8] == 'k' && "-3-5-haiku-20241022"@[9] == 'u' && "-3-5-haiku-20241022"@[10] == '-' && "-3-5-haiku-20241022"@[11] == '2' && "-3-5-haiku-20241022"@[12] == '0' && "-3-5-haiku-20241022"@[13] == '2' && "-3-5-haiku-20241022"@[14] == '4' && "-3-5-haiku-20241022"@[15] == '1' && "-3-5-haiku-20241022"@[16] == '0' && "-3-5-haiku-20241022"@[17] == '2' && "-3-5-haiku-20241022"@[18] == '2');
    reveal_strlit("-fable-5-1");
    assert("-fable-5-1"@.len() == 10 && "-fable-5-1"@[0] == '-' && "-fable-5-1"@[1] == 'f' && "-fable-5-1"@[2] == 'a' && "-fable-5-1"@[3] == 'b' && "-fable-5-1"@[4] == 'l' && "-fable-5-1"@[5] == 'e' && "-fable-5-1"@[6] == '-' && "-fable-5-1"@[7] == '5' && "-fable-5-1"@[8] == '-' && "-fable-5-1"@[9] == '1');
    reveal_strlit("-fable-5");
    assert("-fable-5"@.len() == 8 && "-fable-5"@[0] == '-' && "-fable-5"@[1] == 'f' && "-fable-5"@[2] == 'a' && "-fable-5"@[3] == 'b' && "-fable-5"@[4] == 'l' && "-fable-5"@[5] == 'e' && "-fable-5"@[6] == '-' && "-fable-5"@[7] == '5');
    reveal_strlit("-opus");
    assert("-opus"@.len() == 5 && "-opus"@[0] == '-' && "-opus"@[1] == 'o' && "-opus"@[2] == 'p' && "-opus"@[3] == 'u' && "-opus"@[4] == 's');
    assert forall|a: Seq<char>, b: Seq<char>| #[trigger] (vendor + a) == #[trigger] (vendor + b) ==> a == b by {
        lemma_same_prefix(vendor, a, b);
    }
}

/// A short request to gpt-5.4 (at most 272K input tokens, none of them cached
/// or written to the cache) costs 2.5 dollars per million input tokens and 15
/// dollars per million output tokens, in nano-dollars.
pub proof fn law_short_request_cost(vendor: Seq<char>, u: Usage)
    requires
        u.cached == 0 && u.cache_write == 0 && u.write_5m == 0 && u.write_1h == 0,
        u.input <= 272_000,
    ensures
        estimate_of(ProviderId::Codex, vendor, Some("gpt-5.4"@), u) == Some(u.input * 2500 + u.output * 15000),
{
    law_codex_price_list(vendor);
}

/// Above 272K input tokens gpt-5.4 pays double for input, cached input and
/// 1.5 times for output: 5 and 0.5 dollars per million input and cached tokens
/// and 22.5 dollars per million output tokens.
pub proof fn law_long_context_cost(vendor: Seq<char>, u: Usage)
    requires
        u.cache_write == 0 && u.write_5m == 0 && u.write_1h == 0,
        272_000 < u.input,
        u.cached <= u.input,
    ensures
        estimate_of(ProviderId::Codex, vendor, Some("gpt-5.4"@), u)
            == Some((u.input - u.cached) * 5000 + u.cached * 500 + u.output * 22500),
{
    law_codex_price_list(vendor);
}

/// Cache writes split by lifetime are priced apart: for the sonnet-4-6 model,
/// five-minute writes at 3.75 and one-hour writes at 6 dollars per million
/// tokens, beside 3 dollars for other input, 0.3 for cached input and 15 for
/// output; a split that does not add up to the writes is not priced.
pub proof fn law_cache_write_split(vendor: Seq<char>, u: Usage)
    requires
        u.cached + u.cache_write <= u.input,
        u.cache_write > 0,
    ensures
        u.write_5m + u.write_1h == u.cache_write ==> estimate_of(ProviderId::Claude, vendor, Some(vendor + "-sonnet-4-6"@), u)
            == Some((u.input - u.cached - u.cache_write) * 3000 + u.cached * 300 + u.write_5m * 3750 + u.write_1h * 6000
                + u.output * 15000),
        (u.write_5m != 0 || u.write_1h != 0) && u.write_5m + u.write_1h != u.cache_write
            ==> estimate_of(ProviderId::Claude, vendor, Some(vendor + "-sonnet-4-6"@), u) is None,
        u.write_5m == 0 && u.write_1h == 0 ==> estimate_of(ProviderId::Claude, vendor, Some(vendor + "-sonnet-4-6"@), u)
            == Some((u.input - u.cached - u.cache_write) * 3000 + u.cached * 300 + u.cache_write * 3750 + u.output * 15000),
{
    law_anthropic_price_list(vendor);
}

/// Where the long-context surcharge of a model is unknown, a request above
/// 200K input tokens has no estimate; so has a request whose cached and written
/// tokens exceed its input, and a request to a model without a published price.
pub proof fn law_unpriced_requests(vendor: Seq<char>, u: Usage)
    requires
        total_of(u) > 0,
    ensures
        u.input > 200_000 && u.cached + u.cache_write <= u.input
            ==> estimate_of(ProviderId::Claude, vendor, Some(vendor + "-sonnet-4-5"@), u) is None,
        u.cached + u.cache_write > u.input ==> estimate_of(ProviderId::Codex, vendor, Some("gpt-5.4"@), u) is None,
        estimate_of(ProviderId::Codex, vendor, Some("gpt-5"@), u) is None,
        estimate_of(ProviderId::Codex, vendor, None, u) is None,
{
    law_codex_price_list(vendor);
    law_anthropic_price_list(vendor);
}

} // verus!

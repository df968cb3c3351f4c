//! What a response says of the time that it took.
//!
//! Numbers that are not whole are kept as the bits of their double-precision form; the
//! arithmetic on them is left to the caller.
use vstd::prelude::*;

use crate::failure::Failure;
use crate::json::{member, Json, JsonView};
use crate::text::compose::{no_texts, put, texts};

verus! {

/// The bits of positive infinity: those of a positive finite number are smaller.
pub const INFINITY_BITS: u64 = 0x7ff0_0000_0000_0000;

/// A positive number: a whole one, or one that is given by its bits.
#[derive(Clone, Copy, Debug, PartialEq, Eq, Structural)]
pub enum Amount {
    Whole(u64),
    Real(u64),
}

/// What a duration is known from.
#[derive(Clone, Copy, Debug, PartialEq, Eq, Structural)]
pub enum Timing {
    /// The duration itself, in milliseconds.
    Duration(Amount),
    /// The tokens per second.
    Rate(Amount),
}

/// What a response says of the work that was done and of the time that it took.
#[derive(Clone, Copy, Debug, PartialEq, Eq, Structural)]
pub struct MeasurementSources {
    pub prompt_tokens: u64,
    pub completion_tokens: u64,
    pub prefill: Timing,
    pub decode: Timing,
    pub ttft: Option<Amount>,
}

pub open spec fn is_number(v: JsonView) -> bool {
    v is Unsigned || v is Negative || v is Float
}

/// A positive and finite number.
pub open spec fn positive_amount(v: JsonView) -> Option<Amount> {
    match v {
        JsonView::Unsigned(n) => if n > 0 {
            Some(Amount::Whole(n as u64))
        } else {
            None
        },
        JsonView::Float(bits) => if 0 < bits < INFINITY_BITS {
            Some(Amount::Real(bits))
        } else {
            None
        },
        _ => None,
    }
}

/// The first number under one of the keys.
pub open spec fn first_number(v: JsonView, keys: Seq<Seq<char>>) -> Option<JsonView>
    decreases keys.len(),
{
    if keys.len() == 0 {
        None
    } else {
        match member(v, keys[0]) {
            Some(n) => if is_number(n) {
                Some(n)
            } else {
                first_number(v, keys.drop_first())
            },
            None => first_number(v, keys.drop_first()),
        }
    }
}

/// The first number under one of the keys, where it is positive.
pub open spec fn positive_under(v: Option<JsonView>, keys: Seq<Seq<char>>) -> Option<Amount> {
    match v {
        Some(object) => match first_number(object, keys) {
            Some(n) => positive_amount(n),
            None => None,
        },
        None => None,
    }
}

pub open spec fn key1(a: Seq<char>) -> Seq<Seq<char>> {
    Seq::<Seq<char>>::empty().push(a)
}

pub open spec fn key2(a: Seq<char>, b: Seq<char>) -> Seq<Seq<char>> {
    Seq::<Seq<char>>::empty().push(a).push(b)
}

/// What a duration is known from: what the server measured comes first, its duration
/// before its rate, then what the gateway observed.
pub open spec fn chosen_timing(
    duration: Option<Amount>,
    rate: Option<Amount>,
    observed_rate: Option<Amount>,
    observed_duration: Option<Amount>,
) -> Option<Timing> {
    match (duration, rate, observed_rate, observed_duration) {
        (Some(a), _, _, _) => Some(Timing::Duration(a)),
        (None, Some(a), _, _) => Some(Timing::Rate(a)),
        (None, None, Some(a), _) => Some(Timing::Rate(a)),
        (None, None, None, Some(a)) => Some(Timing::Duration(a)),
        _ => None,
    }
}

/// The object under a key.
pub open spec fn object_under(v: JsonView, key: Seq<char>) -> Option<JsonView> {
    match member(v, key) {
        Some(o) => if o is Object {
            Some(o)
        } else {
            None
        },
        None => None,
    }
}

/// A positive count under a key.
pub open spec fn positive_count(v: JsonView, key: Seq<char>) -> Option<nat> {
    match member(v, key) {
        Some(JsonView::Unsigned(n)) => if n > 0 {
            Some(n)
        } else {
            None
        },
        _ => None,
    }
}

/// What a response says of the work that was done and of the time that it took.
pub open spec fn measured(response: JsonView) -> Result<MeasurementSources, Seq<char>> {
    let timings = object_under(response, "timings"@);
    let metrics = object_under(response, "omniinfer_metrics"@);
    let prefill = chosen_timing(
        positive_under(timings, key1("prompt_ms"@)),
        positive_under(timings, key1("prompt_per_second"@)),
        positive_under(metrics, key1("observed_prefill_tps"@)),
        positive_under(metrics, key1("ttft_ms"@)),
    );
    let decode = chosen_timing(
        positive_under(timings, key2("predicted_ms"@, "decode_ms"@)),
        positive_under(timings, key2("predicted_per_second"@, "decode_tps"@)),
        positive_under(metrics, key1("observed_decode_tps"@)),
        positive_under(metrics, key1("decode_ms"@)),
    );
    match object_under(response, "usage"@) {
        None => Err("response is missing usage"@),
        Some(usage) => match positive_count(usage, "prompt_tokens"@) {
            None => Err("response is missing positive prompt_tokens"@),
            Some(prompt) => match positive_count(usage, "completion_tokens"@) {
                None => Err("response is missing positive completion_tokens"@),
                Some(completion) => match (prefill, decode) {
                    (None, _) => Err("response has no prefill timing"@),
                    (_, None) => Err("response has no decode timing"@),
                    (Some(p), Some(d)) => Ok(
                        MeasurementSources {
                            prompt_tokens: prompt as u64,
                            completion_tokens: completion as u64,
                            prefill: p,
                            decode: d,
                            ttft: positive_under(metrics, key1("ttft_ms"@)),
                        },
                    ),
                },
            },
        },
    }
}

fn amount_of(v: &Json) -> (r: Option<Amount>)
    ensures
        r == positive_amount(v@),
{
    match v {
        Json::Unsigned(n) => if *n > 0 {
            Some(Amount::Whole(*n))
        } else {
            None
        },
        Json::Float(bits) => if *bits > 0 && *bits < INFINITY_BITS {
            Some(Amount::Real(*bits))
        } else {
            None
        },
        _ => None,
    }
}

/// The first number under one of the keys, where it is positive.
pub fn positive_number(object: Option<&Json>, keys: &Vec<String>) -> (r: Option<Amount>)
    ensures
        r == positive_under(crate::json::opt_view(object), texts(keys@)),
{
    let held = match object {
        Some(o) => o,
        None => {
            return None;
        },
    };
    let ghost all = texts(keys@);
    let mut i: usize = 0;
    assert(all.skip(0) =~= all);
    while i < keys.len()
        invariant
            i <= keys@.len(),
            all == texts(keys@),
            crate::json::opt_view(object) == Some(held@),
            first_number(held@, all) == first_number(held@, all.skip(i as int)),
        decreases keys@.len() - i,
    {
        assert(all.skip(i as int).drop_first() =~= all.skip(i as int + 1));
        assert(all.skip(i as int)[0] == keys@[i as int]@);
        if let Some(v) = held.get(keys[i].as_str()) {
            let number = match v {
                Json::Unsigned(_) => true,
                Json::Negative(_) => true,
                Json::Float(_) => true,
                _ => false,
            };
            if number {
                return amount_of(v);
            }
        }
        i += 1;
    }
    assert(all.skip(i as int) =~= Seq::<Seq<char>>::empty());
    None
}

fn under_one(object: Option<&Json>, a: &str) -> (r: Option<Amount>)
    ensures
        r == positive_under(crate::json::opt_view(object), key1(a@)),
{
    let mut keys = no_texts();
    put(&mut keys, a);
    positive_number(object, &keys)
}

fn under_two(object: Option<&Json>, a: &str, b: &str) -> (r: Option<Amount>)
    ensures
        r == positive_under(crate::json::opt_view(object), key2(a@, b@)),
{
    let mut keys = no_texts();
    put(&mut keys, a);
    put(&mut keys, b);
    positive_number(object, &keys)
}

fn get_object<'a>(v: &'a Json, key: &str) -> (r: Option<&'a Json>)
    ensures
        crate::json::opt_view(r) == object_under(v@, key@),
{
    match v.get(key) {
        Some(o) => match o {
            Json::Object(_) => Some(o),
            _ => None,
        },
        None => None,
    }
}

fn count_under(v: &Json, key: &str) -> (r: Option<u64>)
    ensures
        match r {
            Some(n) => positive_count(v@, key@) == Some(n as nat),
            None => positive_count(v@, key@) is None,
        },
{
    match v.get_number(key) {
        Some(n) => if n > 0 {
            Some(n)
        } else {
            None
        },
        None => None,
    }
}

fn choose_timing(
    duration: Option<Amount>,
    rate: Option<Amount>,
    observed_rate: Option<Amount>,
    observed_duration: Option<Amount>,
) -> (r: Option<Timing>)
    ensures
        r == chosen_timing(duration, rate, observed_rate, observed_duration),
{
    match (duration, rate, observed_rate, observed_duration) {
        (Some(a), _, _, _) => Some(Timing::Duration(a)),
        (None, Some(a), _, _) => Some(Timing::Rate(a)),
        (None, None, Some(a), _) => Some(Timing::Rate(a)),
        (None, None, None, Some(a)) => Some(Timing::Duration(a)),
        _ => None,
    }
}

/// What a response says of the work that was done and of the time that it took.
pub fn extract_measurement(response: &Json) -> (r: Result<MeasurementSources, Failure>)
    ensures
        crate::failure::plain_result(r) == measured(response@),
{
    let usage = match get_object(response, "usage") {
        Some(u) => u,
        None => {
            return Err(Failure::new("response is missing usage"));
        },
    };
    let prompt_tokens: u64 = match count_under(usage, "prompt_tokens") {
        Some(n) => n,
        None => {
            return Err(Failure::new("response is missing positive prompt_tokens"));
        },
    };
    let completion_tokens: u64 = match count_under(usage, "completion_tokens") {
        Some(n) => n,
        None => {
            return Err(Failure::new("response is missing positive completion_tokens"));
        },
    };
    let timings = get_object(response, "timings");
    let metrics = get_object(response, "omniinfer_metrics");
    let ttft = under_one(metrics, "ttft_ms");
    let prefill = match choose_timing(
        under_one(timings, "prompt_ms"),
        under_one(timings, "prompt_per_second"),
        under_one(metrics, "observed_prefill_tps"),
        ttft,
    ) {
        Some(t) => t,
        None => {
            return Err(Failure::new("response has no prefill timing"));
        },
    };
    let decode = match choose_timing(
        under_two(timings, "predicted_ms", "decode_ms"),
        under_two(timings, "predicted_per_second", "decode_tps"),
        under_one(metrics, "observed_decode_tps"),
        under_one(metrics, "decode_ms"),
    ) {
        Some(t) => t,
        None => {
            return Err(Failure::new("response has no decode timing"));
        },
    };
    Ok(MeasurementSources { prompt_tokens, completion_tokens, prefill, decode, ttft })
}

/// The count that all runs have in common.
pub open spec fn common_count(counts: Seq<u64>, prompt: bool) -> Result<u64, Seq<char>> {
    if counts.len() == 0 {
        Err("benchmark produced no measurements"@)
    } else if exists|i: int| 0 <= i < counts.len() && #[trigger] counts[i] != counts[0] {
        Err(
            "Measured "@ + (if prompt {
                "prompt"@
            } else {
                "completion"@
            })
                + " token counts differ between runs; a single PP/TG result would be ambiguous."@,
        )
    } else {
        Ok(counts[0])
    }
}

/// The count that all runs have in common; `prompt` is whether it is that of the prompt.
pub fn consistent_token_count(counts: &Vec<u64>, prompt: bool) -> (r: Result<u64, Failure>)
    ensures
        crate::failure::plain_result(r) == common_count(counts@, prompt),
{
    if counts.len() == 0 {
        return Err(Failure::new("benchmark produced no measurements"));
    }
    let first: u64 = counts[0];
    let mut i: usize = 0;
    while i < counts.len()
        invariant
            i <= counts@.len(),
            counts@.len() > 0,
            first == counts@[0],
            forall|j: int| 0 <= j < i ==> #[trigger] counts@[j] == counts@[0],
        decreases counts@.len() - i,
    {
        if counts[i] != first {
            let label = if prompt {
                "prompt"
            } else {
                "completion"
            };
            assert(counts@[i as int] != counts@[0]);
            return Err(
                Failure::of(
                    "Measured ",
                    label,
                    " token counts differ between runs; a single PP/TG result would be ambiguous.",
                ),
            );
        }
        i += 1;
    }
    Ok(first)
}

/// What the server measured itself goes before what the gateway observed.
pub proof fn measured_timing_comes_first(
    duration: Option<Amount>,
    rate: Option<Amount>,
    observed_rate: Option<Amount>,
    observed_duration: Option<Amount>,
)
    requires
        duration is Some || rate is Some,
    ensures
        chosen_timing(duration, rate, observed_rate, observed_duration) == chosen_timing(
            duration,
            rate,
            None,
            None,
        ),
{
}

} // verus!

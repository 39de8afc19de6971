//! Image generation.

use crate::api::attribution::Attribution;
use crate::api::error::{ApiError, BindError};
use crate::api::routes::audio::{charges, member_text, text_or, unit_call};
use crate::api::routes::gate::{is_invalid, is_provider_error};
use crate::api::routes::proxy::{
    fails_as, find_unit_price, unit_price, BreakerNote, PricingEntry, ProxyAction, ProxyFlow,
    ProxyPhase,
};
use crate::api::routes::usage::Call;
use crate::json::{Json, JsonModel};
use crate::records::{Usd, User};
use crate::text::same;
use vstd::prelude::*;

verus! {

/// The model of a request that names none.
pub const IMAGE_MODEL: &'static str = "dall-e-3";

/// What one image costs where nothing is configured, as the bits of doubles:
/// 0.080, 0.040 and 0.020 dollars.
pub const HD_PRICE_BITS: u64 = 0x3fb47ae147ae147b;

pub const STANDARD_PRICE_BITS: u64 = 0x3fa47ae147ae147b;

pub const OTHER_PRICE_BITS: u64 = 0x3f947ae147ae147b;

/// Begins an image request.
pub fn begin_images(refusal: Option<BindError>, body: &Json, default_provider: &str) -> (r: (
    ProxyFlow,
    ProxyAction,
))
    ensures
        r.0.wf(),
        r.0.model@ == text_or(body.model(), "model"@, IMAGE_MODEL@),
        r.0.provider@ == default_provider@,
        match refusal {
            Some(err) => r.0.phase == ProxyPhase::Ended && (fails_as(r.1) matches Some(e)
                && is_invalid(e, err.0@)),
            None => r.0.phase == ProxyPhase::Policy && (
            r.1 matches ProxyAction::CheckPolicy { model } && model@ == text_or(
                body.model(),
                "model"@,
                IMAGE_MODEL@,
            )),
        },
{
    ProxyFlow::begin(
        refusal,
        member_text(body, "model", IMAGE_MODEL),
        default_provider.to_owned(),
    )
}

/// A `u64` read as an `i64` of the same bits.
pub open spec fn wrapped(n: u64) -> i64 {
    if n <= i64::MAX {
        n as i64
    } else {
        (n - 0x1_0000_0000_0000_0000) as i64
    }
}

/// How many images a request asks for: one where it does not say.
pub open spec fn image_count(body: JsonModel) -> i64 {
    match body.at("n"@).unsigned() {
        Some(n) => wrapped(n),
        None => 1,
    }
}

pub fn count_images(body: &Json) -> (r: i64)
    ensures
        r == image_count(body.model()),
{
    if let Some(v) = body.get("n") {
        if let Some(n) = v.as_u64() {
            if n <= 0x7fff_ffff_ffff_ffff {
                return n as i64;
            }
            let below: u64 = u64::MAX - n;
            return -(below as i64) - 1;
        }
    }
    1
}

/// The name under which an image is priced: model and quality.
pub open spec fn pricing_key(body: JsonModel) -> Seq<char> {
    text_or(body, "model"@, IMAGE_MODEL@) + "/"@ + text_or(body, "quality"@, "standard"@)
}

pub open spec fn default_image_price(key: Seq<char>) -> Usd {
    if key == "dall-e-3/hd"@ {
        Usd { bits: HD_PRICE_BITS }
    } else if key == "dall-e-3/standard"@ {
        Usd { bits: STANDARD_PRICE_BITS }
    } else {
        Usd { bits: OTHER_PRICE_BITS }
    }
}

/// What one image of a request costs: the configured price, or else the default
/// for its model and quality.
pub fn image_price(body: &Json, pricing: &Vec<PricingEntry>) -> (r: Usd)
    ensures
        r == unit_price(
            pricing@,
            pricing_key(body.model()),
            default_image_price(pricing_key(body.model())),
        ),
{
    let mut key = member_text(body, "model", IMAGE_MODEL);
    key.append("/");
    key.append(member_text(body, "quality", "standard").as_str());
    let default = if same(key.as_str(), "dall-e-3/hd") {
        Usd { bits: HD_PRICE_BITS }
    } else if same(key.as_str(), "dall-e-3/standard") {
        Usd { bits: STANDARD_PRICE_BITS }
    } else {
        Usd { bits: OTHER_PRICE_BITS }
    };
    find_unit_price(pricing, key.as_str(), default)
}

/// What generating came to: a failure speaks against the provider.
pub fn generated(result: Result<Json, String>) -> (r: (BreakerNote, Result<Json, ApiError>))
    ensures
        match result {
            Ok(image) => r == (BreakerNote::Success, Ok::<Json, ApiError>(image)),
            Err(msg) => r.0 == BreakerNote::Failure && (r.1 matches Err(e) && is_provider_error(
                e,
                msg@,
            )),
        },
{
    match result {
        Ok(image) => (BreakerNote::Success, Ok(image)),
        Err(msg) => (BreakerNote::Failure, Err(ApiError::ProviderError(msg))),
    }
}

/// The call that images are charged as: their number at the price of them all.
pub fn images_call(
    user: &User,
    attribution: &Attribution,
    flow: &ProxyFlow,
    body: &Json,
    cost_usd: Usd,
) -> (r: Call)
    ensures
        charges(r, *user, *attribution, *flow, image_count(body.model()), cost_usd),
{
    unit_call(user, attribution, flow, count_images(body), cost_usd)
}

/// As many images are charged as were asked for, one where none is stated, at the price of
/// their model and quality.
pub proof fn images_are_counted_and_priced(body: JsonModel)
    ensures
        body.at("n"@).unsigned() is None ==> image_count(body) == 1,
        body.at("n"@).unsigned() matches Some(n) ==> (n <= i64::MAX ==> image_count(body) == n),
        body.at("model"@).text() matches Some(m) ==> (body.at("quality"@).text() matches Some(q)
            ==> pricing_key(body) == m + "/"@ + q),
        body.at("model"@).text() is None ==> (body.at("quality"@).text() is None ==> pricing_key(body)
            == "dall-e-3"@ + "/"@ + "standard"@),
        default_image_price("dall-e-3/hd"@).bits == 0x3fb47ae147ae147b,
        default_image_price("dall-e-3/standard"@).bits == 0x3fa47ae147ae147b,
        forall|key: Seq<char>|
            key != "dall-e-3/hd"@ && key != "dall-e-3/standard"@ ==> (#[trigger] default_image_price(
                key,
            )).bits == 0x3f947ae147ae147b,
{
    reveal_strlit("dall-e-3/hd");
    reveal_strlit("dall-e-3/standard");
    assert("dall-e-3/hd"@.len() == 11);
    assert("dall-e-3/standard"@.len() == 17);
}

} // verus!

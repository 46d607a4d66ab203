//! Instruments on OKX.

use crate::config::ExchangeFallbackMapping;
use crate::instrument::check_listed;
use crate::instrument::fallback_variants;
use crate::instrument::listed;
use crate::instrument::not_found;
use crate::instrument::texts;
use crate::items::IngestError;
use crate::items::IngestErrorView;
use crate::text::same_text;
use crate::urls::rest_endpoint;
use crate::urls::rest_url;
use vstd::prelude::*;

verus! {

/// The address of the list of instruments.
pub open spec fn validation_endpoint(region: Seq<char>) -> Seq<char> {
    rest_endpoint(region, "okx"@) + "/api/v5/public/instruments?instType=SPOT"@
}

/// The address of the list of instruments.
pub fn build_validation_url(region: &str) -> (r: String)
    ensures
        r@ == validation_endpoint(region@),
{
    rest_url(region, "okx").to_owned().concat("/api/v5/public/instruments?instType=SPOT")
}

/// Checks an instrument against the list that OKX offers.
pub fn check_instrument_in_set(instrument: &str, instruments: &Vec<String>) -> (r: Result<
    (),
    IngestError,
>)
    ensures
        r is Ok <==> listed(instrument@, instruments@),
        r matches Err(e) ==> e@ == IngestErrorView::Config(not_found(instrument@, "OKX"@)),
{
    check_listed(instrument, instruments, "OKX")
}

/// Judges the answer to a request for the list of instruments: a code other
/// than "0" is an error of OKX, and otherwise the instrument must be listed.
pub fn judge_response(code: &str, msg: &str, instruments: &Vec<String>, instrument: &str) -> (r:
    Result<(), IngestError>)
    ensures
        r is Ok <==> code@ == "0"@ && listed(instrument@, instruments@),
        r matches Err(e) ==> e@ == IngestErrorView::Config(
            if code@ != "0"@ {
                "OKX API error: "@ + msg@
            } else {
                not_found(instrument@, "OKX"@)
            },
        ),
{
    if !same_text(code, "0") {
        return Err(IngestError::Config("OKX API error: ".to_owned().concat(msg)));
    }
    check_instrument_in_set(instrument, instruments)
}

/// The instruments to try on OKX in place of one that is not found.
pub fn generate_fallback_variants(original: &str, mapping: &ExchangeFallbackMapping) -> (r: Vec<
    String,
>)
    ensures
        texts(r@) == fallback_variants(original@, *mapping),
{
    crate::instrument::generate_fallback_variants(original, mapping)
}

} // verus!

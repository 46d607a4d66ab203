//! Instruments on Bitstamp.

use crate::config::ExchangeFallbackMapping;
use crate::instrument::check_listed;
use crate::instrument::fallback_variants;
use crate::instrument::listed;
use crate::instrument::not_found;
use crate::instrument::texts;
use crate::items::IngestError;
use crate::items::IngestErrorView;
use crate::urls::rest_endpoint;
use crate::urls::rest_url;
use vstd::prelude::*;

verus! {

/// The address of the list of instruments.
pub open spec fn validation_endpoint(region: Seq<char>) -> Seq<char> {
    rest_endpoint(region, "bitstamp"@) + "/trading-pairs-info/"@
}

/// The address of the list of instruments.
pub fn build_validation_url(region: &str) -> (r: String)
    ensures
        r@ == validation_endpoint(region@),
{
    rest_url(region, "bitstamp").to_owned().concat("/trading-pairs-info/")
}

/// Checks an instrument against the list that Bitstamp offers.
pub fn check_instrument_in_set(instrument: &str, instruments: &Vec<String>) -> (r: Result<
    (),
    IngestError,
>)
    ensures
        r is Ok <==> listed(instrument@, instruments@),
        r matches Err(e) ==> e@ == IngestErrorView::Config(not_found(instrument@, "Bitstamp"@)),
{
    check_listed(instrument, instruments, "Bitstamp")
}

/// The instruments to try on Bitstamp in place of one that is not found.
pub fn generate_fallback_variants(original: &str, mapping: &ExchangeFallbackMapping) -> (r: Vec<
    String,
>)
    ensures
        texts(r@) == fallback_variants(original@, *mapping),
{
    crate::instrument::generate_fallback_variants(original, mapping)
}

} // verus!

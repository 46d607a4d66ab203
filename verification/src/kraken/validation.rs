//! Instruments on Kraken.

use crate::config::ExchangeFallbackMapping;
use crate::instrument::check_listed;
use crate::instrument::fallback_variants;
use crate::instrument::listed;
use crate::instrument::not_found;
use crate::instrument::texts;
use crate::items::IngestError;
use crate::items::IngestErrorView;
use crate::json::write_json;
use crate::json::Json;
use crate::kraken::types::instrument_list;
use crate::kraken::types::instrument_symbols;
use crate::kraken::types::message_of;
use crate::kraken::types::KrakenWsMessage;
use vstd::prelude::*;

verus! {

/// Checks an instrument against the list that Kraken offers.
pub fn check_instrument_in_set(instrument: &str, instruments: &Vec<String>) -> (r: Result<
    (),
    IngestError,
>)
    ensures
        r is Ok <==> listed(instrument@, instruments@),
        r matches Err(e) ==> e@ == IngestErrorView::Config(not_found(instrument@, "Kraken"@)),
{
    check_listed(instrument, instruments, "Kraken")
}

/// Seconds after which the validation of an instrument is given up.
pub const VALIDATION_TIMEOUT_SECS: u64 = 10;

/// What is reported where the validation took too long.
pub fn timeout_error() -> (r: IngestError)
    ensures
        r@ == IngestErrorView::Config(
            "Kraken instrument validation timed out after "@ + "10"@ + "s"@,
        ),
{
    IngestError::Config(
        "Kraken instrument validation timed out after ".to_owned().concat("10").concat("s"),
    )
}

/// What is reported where the connection ended without a list of instruments.
pub fn no_data_error() -> (r: IngestError)
    ensures
        r@ == IngestErrorView::Config(
            "Kraken instrument validation: no instrument data received"@,
        ),
{
    IngestError::Config("Kraken instrument validation: no instrument data received".to_owned())
}

/// What is reported where the subscription to the list was refused.
pub open spec fn refusal(error: Option<Seq<char>>) -> Seq<char> {
    "Kraken instrument subscription failed: "@ + match error {
        Some(e) => e,
        None => "unknown error"@,
    }
}

/// A message says that a request was refused.
pub open spec fn refuses(v: Json) -> bool {
    message_of(v) matches Some(m) && m.success == Some(false)
}

/// What a message says about an instrument: `Some` decides, `None` means that
/// more messages are to be read. A list of instruments decides by whether the
/// instrument is listed, and a refused request decides against it.
pub fn judge_message(v: &Json, instrument: &str) -> (r: Option<
    Result<(), IngestError>,
>)
    ensures
        r is None <==> instrument_list(*v) is None && !refuses(*v),
        instrument_list(*v) matches Some(symbols) ==> (r matches Some(verdict) && (verdict is Ok
            <==> symbols.contains(instrument@)) && (verdict matches Err(e) ==> e@
            == IngestErrorView::Config(not_found(instrument@, "Kraken"@)))),
        instrument_list(*v) is None && refuses(*v) ==> (r matches Some(Err(e)) && e@
            == IngestErrorView::Config(refusal(message_of(*v)->0.error))),
{
    match instrument_symbols(v) {
        Some(symbols) => {
            let verdict: Result<(), IngestError> = check_instrument_in_set(instrument, &symbols);
            proof {
                let all = texts(symbols@);
                if listed(instrument@, symbols@) {
                    let i = choose|i: int|
                        0 <= i < symbols@.len() && (#[trigger] symbols@[i])@ == instrument@;
                    assert(all[i] == instrument@);
                }
                if all.contains(instrument@) {
                    let i = choose|i: int| 0 <= i < all.len() && all[i] == instrument@;
                    assert(symbols@[i]@ == instrument@);
                }
            }
            Some(verdict)
        },
        None => {
            match KrakenWsMessage::from_value(v) {
                Some(m) => if m.success == Some(false) {
                    let text: String = match m.error {
                        Some(e) => write_json(e),
                        None => "unknown error".to_owned(),
                    };
                    Some(
                        Err(
                            IngestError::Config(
                                "Kraken instrument subscription failed: ".to_owned().concat(text.as_str()),
                            ),
                        ),
                    )
                } else {
                    None
                },
                None => None,
            }
        },
    }
}

/// The instruments to try on Kraken in place of one that is not found.
pub fn generate_fallback_variants(original: &str, mapping: &ExchangeFallbackMapping) -> (r: Vec<
    String,
>)
    ensures
        texts(r@) == fallback_variants(original@, *mapping),
{
    crate::instrument::generate_fallback_variants(original, mapping)
}

} // verus!

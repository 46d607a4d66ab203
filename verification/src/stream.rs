//! Opening a stream: which connections to make.

use crate::config::active_channel_kinds;
use crate::config::channel_kinds;
use crate::config::DataKind;
use crate::config::DataSourceConfig;
use crate::instrument::resolution;
use crate::instrument::validate_with_fallback;
use crate::instrument::ExchangeValidator;
use crate::instrument::Resolution;
use crate::instrument::ResolutionView;
use crate::items::IngestError;
use crate::items::IngestErrorView;
use vstd::prelude::*;

verus! {

/// How the opening of a stream goes on.
#[derive(Debug)]
pub enum Opening {
    /// The exchange is to be asked for this instrument.
    Ask(String),
    /// One connection to the exchange is to be made for each channel.
    Open { exchange: ExchangeValidator, instrument: String, channels: Vec<DataKind> },
    /// The stream cannot be opened.
    Refuse(IngestError),
}

/// Opens a stream. `answers` are the answers of the exchange for the
/// instruments asked for so far.
pub fn stream(config: &DataSourceConfig, answers: &Vec<bool>) -> (r: Opening)
    ensures
        config.fault() matches Some(f) ==> (r matches Opening::Refuse(e) && e@
            == IngestErrorView::Config(f.message())),
        config.fault() is None ==> match resolution(*config, answers@) {
            ResolutionView::Ask(name) => r matches Opening::Ask(n) && n@ == name,
            ResolutionView::Use(name) => r matches Opening::Open {
                exchange,
                instrument,
                channels,
            } && exchange.name() == config.exchange@ && instrument@ == name && channels@
                == channel_kinds(config.data_kind),
            ResolutionView::Refuse(error) => r matches Opening::Refuse(e) && e@ == error,
        },
{
    match config.validate() {
        Ok(_) => {},
        Err(e) => {
            return Opening::Refuse(IngestError::Config(e.to_string()));
        },
    }
    match validate_with_fallback(config, answers) {
        Resolution::Ask(name) => Opening::Ask(name),
        Resolution::Refuse(e) => Opening::Refuse(e),
        Resolution::Use(instrument) => {
            match ExchangeValidator::from_exchange_name(config.exchange.as_str()) {
                Some(exchange) => Opening::Open {
                    exchange,
                    instrument,
                    channels: active_channel_kinds(config.data_kind),
                },
                None => Opening::Refuse(
                    IngestError::Config(
                        "unknown exchange: ".to_owned().concat(config.exchange.as_str()),
                    ),
                ),
            }
        },
    }
}

} // verus!

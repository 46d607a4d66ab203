//! Endpoints of the exchanges.

use crate::text::same_text;
use crate::text::begins;
use vstd::prelude::*;

verus! {

/// The WebSocket endpoint of an exchange in a region; empty where the
/// exchange is not known.
pub open spec fn websocket_endpoint(region: Seq<char>, exchange: Seq<char>) -> Seq<char> {
    if exchange == "okx"@ {
        if region == "europe"@ {
            "wss://wseea.okx.com:8443/ws/v5/public"@
        } else {
            "wss://ws.okx.com:8443/ws/v5/public"@
        }
    } else if exchange == "kraken"@ {
        "wss://ws.kraken.com/v2"@
    } else if exchange == "bitstamp"@ {
        "wss://ws.bitstamp.net"@
    } else if exchange == "bitvavo"@ {
        "wss://ws-mdpro.bitvavo.com/v2/"@
    } else {
        ""@
    }
}

/// The REST endpoint of an exchange in a region; empty where the exchange is
/// not known.
pub open spec fn rest_endpoint(region: Seq<char>, exchange: Seq<char>) -> Seq<char> {
    if exchange == "okx"@ {
        if region == "europe"@ {
            "https://eea.okx.com"@
        } else {
            "https://www.okx.com"@
        }
    } else if exchange == "kraken"@ {
        "https://api.kraken.com"@
    } else if exchange == "bitstamp"@ {
        "https://www.bitstamp.net/api/v2"@
    } else if exchange == "bitvavo"@ {
        "https://api.bitvavo.com/v2"@
    } else {
        ""@
    }
}

/// The WebSocket endpoint of an exchange in a region.
pub fn websocket_url(region: &str, exchange: &str) -> (r: &'static str)
    ensures
        r@ == websocket_endpoint(region@, exchange@),
{
    if same_text(exchange, "okx") {
        if same_text(region, "europe") {
            "wss://wseea.okx.com:8443/ws/v5/public"
        } else {
            "wss://ws.okx.com:8443/ws/v5/public"
        }
    } else if same_text(exchange, "kraken") {
        "wss://ws.kraken.com/v2"
    } else if same_text(exchange, "bitstamp") {
        "wss://ws.bitstamp.net"
    } else if same_text(exchange, "bitvavo") {
        "wss://ws-mdpro.bitvavo.com/v2/"
    } else {
        ""
    }
}

/// The REST endpoint of an exchange in a region.
pub fn rest_url(region: &str, exchange: &str) -> (r: &'static str)
    ensures
        r@ == rest_endpoint(region@, exchange@),
{
    if same_text(exchange, "okx") {
        if same_text(region, "europe") {
            "https://eea.okx.com"
        } else {
            "https://www.okx.com"
        }
    } else if same_text(exchange, "kraken") {
        "https://api.kraken.com"
    } else if same_text(exchange, "bitstamp") {
        "https://www.bitstamp.net/api/v2"
    } else if same_text(exchange, "bitvavo") {
        "https://api.bitvavo.com/v2"
    } else {
        ""
    }
}

/// Every exchange has its own addresses, which are encrypted; other names have
/// none; and the region matters for OKX alone, where Europe has its own and
/// every other region the global ones.
pub proof fn addresses_go_by_exchange(region: Seq<char>, other: Seq<char>, exchange: Seq<char>)
    ensures
        exchange != "okx"@ ==> websocket_endpoint(region, exchange) == websocket_endpoint(
            other,
            exchange,
        ) && rest_endpoint(region, exchange) == rest_endpoint(other, exchange),
        region != "europe"@ && other != "europe"@ ==> websocket_endpoint(region, exchange)
            == websocket_endpoint(other, exchange) && rest_endpoint(region, exchange)
            == rest_endpoint(other, exchange),
        region == "europe"@ && other != "europe"@ && exchange == "okx"@ ==> websocket_endpoint(
            region,
            exchange,
        ) != websocket_endpoint(other, exchange) && rest_endpoint(region, exchange)
            != rest_endpoint(other, exchange),
        exchange == "okx"@ || exchange == "kraken"@ || exchange == "bitstamp"@ || exchange
            == "bitvavo"@ ==> begins(websocket_endpoint(region, exchange), "wss://"@) && begins(
            rest_endpoint(region, exchange),
            "https://"@,
        ),
        exchange != "okx"@ && exchange != "kraken"@ && exchange != "bitstamp"@ && exchange
            != "bitvavo"@ ==> websocket_endpoint(region, exchange).len() == 0 && rest_endpoint(
            region,
            exchange,
        ).len() == 0,
{
    reveal_strlit("okx");
    reveal_strlit("kraken");
    reveal_strlit("bitstamp");
    reveal_strlit("bitvavo");
    reveal_strlit("wss://");
    reveal_strlit("https://");
    reveal_strlit("");
    reveal_strlit("wss://wseea.okx.com:8443/ws/v5/public");
    reveal_strlit("wss://ws.okx.com:8443/ws/v5/public");
    reveal_strlit("wss://ws.kraken.com/v2");
    reveal_strlit("wss://ws.bitstamp.net");
    reveal_strlit("wss://ws-mdpro.bitvavo.com/v2/");
    reveal_strlit("https://eea.okx.com");
    reveal_strlit("https://www.okx.com");
    reveal_strlit("https://api.kraken.com");
    reveal_strlit("https://www.bitstamp.net/api/v2");
    reveal_strlit("https://api.bitvavo.com/v2");
    assert("wss://wseea.okx.com:8443/ws/v5/public"@.take(6) =~= "wss://"@);
    assert("wss://ws.okx.com:8443/ws/v5/public"@.take(6) =~= "wss://"@);
    assert("wss://ws.kraken.com/v2"@.take(6) =~= "wss://"@);
    assert("wss://ws.bitstamp.net"@.take(6) =~= "wss://"@);
    assert("wss://ws-mdpro.bitvavo.com/v2/"@.take(6) =~= "wss://"@);
    assert("https://eea.okx.com"@.take(8) =~= "https://"@);
    assert("https://www.okx.com"@.take(8) =~= "https://"@);
    assert("https://api.kraken.com"@.take(8) =~= "https://"@);
    assert("https://www.bitstamp.net/api/v2"@.take(8) =~= "https://"@);
    assert("https://api.bitvavo.com/v2"@.take(8) =~= "https://"@);
    assert("https://eea.okx.com"@[8] != "https://www.okx.com"@[8]);
    assert("wss://wseea.okx.com:8443/ws/v5/public"@.len() != "wss://ws.okx.com:8443/ws/v5/public"@.len());
    assert("okx"@.len() == 3 && "kraken"@.len() == 6 && "bitstamp"@.len() == 8 && "bitvavo"@.len() == 7);
}

/// The addresses are those that the exchanges give out for public data.
pub proof fn addresses_are_public_ones(region: Seq<char>)
    ensures
        region == "europe"@ ==> websocket_endpoint(region, "okx"@)
            == "wss://wseea.okx.com:8443/ws/v5/public"@ && rest_endpoint(region, "okx"@)
            == "https://eea.okx.com"@,
        region != "europe"@ ==> websocket_endpoint(region, "okx"@)
            == "wss://ws.okx.com:8443/ws/v5/public"@ && rest_endpoint(region, "okx"@)
            == "https://www.okx.com"@,
        websocket_endpoint(region, "kraken"@) == "wss://ws.kraken.com/v2"@,
        rest_endpoint(region, "kraken"@) == "https://api.kraken.com"@,
        websocket_endpoint(region, "bitstamp"@) == "wss://ws.bitstamp.net"@,
        rest_endpoint(region, "bitstamp"@) == "https://www.bitstamp.net/api/v2"@,
        websocket_endpoint(region, "bitvavo"@) == "wss://ws-mdpro.bitvavo.com/v2/"@,
        rest_endpoint(region, "bitvavo"@) == "https://api.bitvavo.com/v2"@,
        crate::okx::validation::validation_endpoint(region) == rest_endpoint(region, "okx"@)
            + "/api/v5/public/instruments?instType=SPOT"@,
        crate::bitstamp::validation::validation_endpoint(region) == rest_endpoint(
            region,
            "bitstamp"@,
        ) + "/trading-pairs-info/"@,
        crate::bitvavo::validation::validation_endpoint(region) == rest_endpoint(
            region,
            "bitvavo"@,
        ) + "/markets"@,
{
    reveal_strlit("okx");
    reveal_strlit("kraken");
    reveal_strlit("bitstamp");
    reveal_strlit("bitvavo");
    assert("okx"@.len() == 3 && "kraken"@.len() == 6 && "bitstamp"@.len() == 8 && "bitvavo"@.len()
        == 7);
}

} // verus!

use stock_streamer::endpoint::{endpoint_text, endpoint_url};
use stock_streamer::subscription_frame;

#[test]
fn plain_ticker_frame() {
    assert_eq!(subscription_frame("AAPL.US"), "{\"action\":\"subscribe\",\"symbols\":\"AAPL.US\"}");
}

#[test]
fn quote_in_ticker_is_escaped() {
    assert_eq!(subscription_frame("A\"B"), "{\"action\":\"subscribe\",\"symbols\":\"A\\\"B\"}");
}

#[test]
fn backslash_and_control_characters_are_escaped() {
    assert_eq!(subscription_frame("a\\b\nc\u{1f}"), "{\"action\":\"subscribe\",\"symbols\":\"a\\\\b\\u000ac\\u001f\"}");
}

#[test]
fn non_ascii_ticker_is_kept() {
    assert_eq!(subscription_frame("é€"), "{\"action\":\"subscribe\",\"symbols\":\"é€\"}");
}

#[test]
fn empty_ticker_frame() {
    assert_eq!(subscription_frame(""), "{\"action\":\"subscribe\",\"symbols\":\"\"}");
}

#[test]
fn plain_token_endpoint() {
    assert_eq!(endpoint_text("demo"), "wss://ws.eodhistoricaldata.com/ws/us?api_token=demo");
}

#[test]
fn reserved_characters_in_token_are_escaped() {
    assert_eq!(endpoint_text("a b&c=d#é"), "wss://ws.eodhistoricaldata.com/ws/us?api_token=a+b%26c%3Dd%23%C3%A9");
}

#[test]
fn endpoint_parses() {
    let u = endpoint_url("a b&c").unwrap();
    assert_eq!(u.scheme(), "wss");
    assert_eq!(u.host_str(), Some("ws.eodhistoricaldata.com"));
    assert_eq!(u.query(), Some("api_token=a+b%26c"));
}

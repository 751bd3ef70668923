use nextrip_test_server::hello;
use nextrip_test_server::json::{encode_response, json_quote};
use nextrip_test_server::model::{nextrip_response, ScheduleRelationship};
use nextrip_test_server::parse::parse_stop_id;
use nextrip_test_server::router::respond;

const FIXTURE_JSON: &str = "{\"departures\":[{\"actual\":true,\"trip_id\":\"foo\",\"departure_text\":\"Due\",\"route_short_name\":\"0\",\"terminal\":\"Z\",\"schedule_relationship\":\"Scheduled\"},{\"actual\":true,\"trip_id\":\"bar\",\"departure_text\":\"4 Min\",\"route_short_name\":\"012\",\"schedule_relationship\":\"Scheduled\"},{\"actual\":false,\"trip_id\":\"baz\",\"departure_text\":\"12:34\",\"route_short_name\":\"99\",\"terminal\":\"E\",\"schedule_relationship\":\"Skipped\"},{\"actual\":false,\"trip_id\":\"qux\",\"departure_text\":\"1:23\",\"route_short_name\":\"42\",\"terminal\":\"B\",\"schedule_relationship\":\"NoData\"}]}";

#[test]
fn hello_body() {
    assert_eq!(hello(), "Hello!");
}

#[test]
fn fixture_has_four_records_in_order() {
    let r = nextrip_response();
    assert_eq!(r.departures.len(), 4);

    let d = &r.departures[0];
    assert!(d.actual);
    assert_eq!(d.trip_id, "foo");
    assert_eq!(d.departure_text, "Due");
    assert_eq!(d.route_short_name, "0");
    assert_eq!(d.terminal.as_deref(), Some("Z"));
    assert_eq!(d.schedule_relationship, ScheduleRelationship::Scheduled);

    let d = &r.departures[1];
    assert!(d.actual);
    assert_eq!(d.trip_id, "bar");
    assert_eq!(d.departure_text, "4 Min");
    assert_eq!(d.route_short_name, "012");
    assert_eq!(d.terminal, None);
    assert_eq!(d.schedule_relationship, ScheduleRelationship::Scheduled);

    let d = &r.departures[2];
    assert!(!d.actual);
    assert_eq!(d.trip_id, "baz");
    assert_eq!(d.departure_text, "12:34");
    assert_eq!(d.route_short_name, "99");
    assert_eq!(d.terminal.as_deref(), Some("E"));
    assert_eq!(d.schedule_relationship, ScheduleRelationship::Skipped);

    let d = &r.departures[3];
    assert!(!d.actual);
    assert_eq!(d.trip_id, "qux");
    assert_eq!(d.departure_text, "1:23");
    assert_eq!(d.route_short_name, "42");
    assert_eq!(d.terminal.as_deref(), Some("B"));
    assert_eq!(d.schedule_relationship, ScheduleRelationship::NoData);
}

#[test]
fn fixture_encodes_to_exact_json() {
    assert_eq!(encode_response(&nextrip_response()), FIXTURE_JSON);
}

#[test]
fn json_quote_plain_string() {
    assert_eq!(json_quote("4 Min"), "\"4 Min\"");
}

#[test]
fn json_quote_escapes_quote_and_backslash() {
    assert_eq!(json_quote("a\"b\\c"), "\"a\\\"b\\\\c\"");
}

#[test]
fn json_quote_escapes_common_controls() {
    assert_eq!(json_quote("x\ny\rz\t"), "\"x\\ny\\rz\\t\"");
}

#[test]
fn json_quote_escapes_other_controls_as_hex() {
    assert_eq!(json_quote("\u{1}\u{1f}"), "\"\\u0001\\u001f\"");
}

#[test]
fn json_quote_keeps_non_ascii() {
    assert_eq!(json_quote("caf\u{e9}"), "\"caf\u{e9}\"");
}

#[test]
fn parse_accepts_plain_integers() {
    assert_eq!(parse_stop_id("0"), Some(0));
    assert_eq!(parse_stop_id("42"), Some(42));
    assert_eq!(parse_stop_id("17420"), Some(17420));
}

#[test]
fn parse_accepts_signs() {
    assert_eq!(parse_stop_id("+7"), Some(7));
    assert_eq!(parse_stop_id("-7"), Some(-7));
    assert_eq!(parse_stop_id("-0"), Some(0));
}

#[test]
fn parse_accepts_leading_zeros() {
    assert_eq!(parse_stop_id("007"), Some(7));
    assert_eq!(parse_stop_id("0000000000000000001"), Some(1));
}

#[test]
fn parse_handles_the_extremes() {
    assert_eq!(parse_stop_id("2147483647"), Some(i32::MAX));
    assert_eq!(parse_stop_id("-2147483648"), Some(i32::MIN));
    assert_eq!(parse_stop_id("2147483648"), None);
    assert_eq!(parse_stop_id("-2147483649"), None);
    assert_eq!(parse_stop_id("99999999999999999999"), None);
}

#[test]
fn parse_rejects_malformed_input() {
    assert_eq!(parse_stop_id(""), None);
    assert_eq!(parse_stop_id("+"), None);
    assert_eq!(parse_stop_id("-"), None);
    assert_eq!(parse_stop_id("abc"), None);
    assert_eq!(parse_stop_id("1a"), None);
    assert_eq!(parse_stop_id("--1"), None);
    assert_eq!(parse_stop_id("4 2"), None);
    assert_eq!(parse_stop_id(" 42"), None);
}

#[test]
fn get_hello_route() {
    let r = respond("GET", "/hello");
    assert_eq!(r.status, 200);
    assert_eq!(r.body, "Hello!");
    assert_eq!(r.content_type.as_deref(), Some("text/plain; charset=utf-8"));
}

#[test]
fn get_nextrip_route_returns_fixture_json() {
    let r = respond("GET", "/nextrip/42");
    assert_eq!(r.status, 200);
    assert_eq!(r.body, FIXTURE_JSON);
}

#[test]
fn nextrip_content_type_is_json() {
    let r = respond("GET", "/nextrip/42");
    assert_eq!(r.content_type.as_deref(), Some("application/json"));
}

#[test]
fn any_integer_stop_id_is_served() {
    for stop in ["0", "-17", "+3", "2147483647", "-2147483648", "007"] {
        let r = respond("GET", &format!("/nextrip/{stop}"));
        assert_eq!(r.status, 200);
        assert_eq!(r.body, FIXTURE_JSON);
    }
}

#[test]
fn non_integer_stop_id_is_a_bad_request() {
    assert_eq!(respond("GET", "/nextrip/abc").status, 400);
    assert_eq!(respond("GET", "/nextrip/12x").status, 400);
    assert_eq!(respond("GET", "/nextrip/2147483648").status, 400);
}

#[test]
fn unknown_paths_are_not_found() {
    assert_eq!(respond("GET", "/").status, 404);
    assert_eq!(respond("GET", "/goodbye").status, 404);
    assert_eq!(respond("GET", "/nextrip").status, 404);
    assert_eq!(respond("GET", "/nextrip/").status, 404);
    assert_eq!(respond("GET", "/nextrip/1/2").status, 404);
}

#[test]
fn other_methods_are_not_allowed() {
    assert_eq!(respond("POST", "/hello").status, 405);
    assert_eq!(respond("PUT", "/nextrip/42").status, 405);
}

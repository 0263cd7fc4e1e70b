use vssv::addr::{IpAddress, parse_ip, parse_ipv4, parse_ipv6};
use vssv::parse::parse_uuid;
use vssv::routes::{HttpMethod, Route, match_route};
use vssv::settings::LogLevel;

fn v4(text: &str) -> Option<u32> {
    parse_ipv4(&text.as_bytes().to_vec())
}

fn v6(text: &str) -> Option<u128> {
    parse_ipv6(&text.as_bytes().to_vec())
}

fn ip(text: &str) -> Option<IpAddress> {
    parse_ip(&text.as_bytes().to_vec())
}

#[test]
fn dotted_quads_parse_to_their_value() {
    assert_eq!(v4("0.0.0.0"), Some(0));
    assert_eq!(v4("127.0.0.1"), Some(0x7f00_0001));
    assert_eq!(v4("255.255.255.255"), Some(0xffff_ffff));
    assert_eq!(v4("10.0.0.7"), Some(0x0a00_0007));
}

#[test]
fn malformed_dotted_quads_are_rejected() {
    assert_eq!(v4(""), None);
    assert_eq!(v4("1.2.3"), None);
    assert_eq!(v4("1.2.3.4.5"), None);
    assert_eq!(v4("1.2.3.256"), None);
    assert_eq!(v4("01.2.3.4"), None);
    assert_eq!(v4("1..2.3"), None);
    assert_eq!(v4("1.2.3.x"), None);
    assert_eq!(v4("1.2.3.4 "), None);
}

#[test]
fn version_6_literals_parse_to_their_value() {
    assert_eq!(v6("::"), Some(0));
    assert_eq!(v6("::1"), Some(1));
    assert_eq!(v6("1::"), Some(0x0001_u128 << 112));
    assert_eq!(
        v6("1:2:3:4:5:6:7:8"),
        Some(0x0001_0002_0003_0004_0005_0006_0007_0008)
    );
    assert_eq!(
        v6("2001:db8::1"),
        Some(0x2001_0db8_0000_0000_0000_0000_0000_0001)
    );
    assert_eq!(
        v6("::ffff:1.2.3.4"),
        Some(0x0000_0000_0000_0000_0000_ffff_0102_0304)
    );
    assert_eq!(
        v6("1:2:3:4:5:6:1.2.3.4"),
        Some(0x0001_0002_0003_0004_0005_0006_0102_0304)
    );
    assert_eq!(
        v6("1:2:3:4:5:6:7::"),
        Some(0x0001_0002_0003_0004_0005_0006_0007_0000)
    );
    assert_eq!(v6("ABCD::ef01"), Some((0xabcd_u128 << 112) | 0xef01));
}

#[test]
fn malformed_version_6_literals_are_rejected() {
    assert_eq!(v6(""), None);
    assert_eq!(v6(":"), None);
    assert_eq!(v6(":::"), None);
    assert_eq!(v6("1::2::3"), None);
    assert_eq!(v6("1:2:3:4:5:6:7"), None);
    assert_eq!(v6("1:2:3:4:5:6:7:8:9"), None);
    assert_eq!(v6("1:2:3:4:5:6:7:8::"), None);
    assert_eq!(v6("12345::"), None);
    assert_eq!(v6("g::1"), None);
    assert_eq!(v6(":1:2:3:4:5:6:7"), None);
    assert_eq!(v6("1:2:3:4:5:6:7:"), None);
}

#[test]
fn either_version_is_accepted_by_the_combined_parser() {
    assert_eq!(ip("127.0.0.1"), Some(IpAddress::V4(0x7f00_0001)));
    assert_eq!(ip("::1"), Some(IpAddress::V6(1)));
    assert_eq!(ip("neither"), None);
}

#[test]
fn canonicalization_collapses_only_mapped_addresses() {
    let mapped = IpAddress::V6(0x0000_0000_0000_0000_0000_ffff_7f00_0001);
    assert_eq!(mapped.to_canonical(), IpAddress::V4(0x7f00_0001));
    let loopback = IpAddress::V6(1);
    assert_eq!(loopback.to_canonical(), loopback);
    let plain = IpAddress::V4(0x0102_0304);
    assert_eq!(plain.to_canonical(), plain);
}

#[test]
fn identifier_literals_parse_to_their_value() {
    let text = b"123e4567-e89b-12d3-a456-426614174000".to_vec();
    assert_eq!(
        parse_uuid(&text),
        Some(0x123e4567_e89b_12d3_a456_426614174000)
    );
    let zero = b"00000000-0000-0000-0000-000000000000".to_vec();
    assert_eq!(parse_uuid(&zero), Some(0));
}

#[test]
fn malformed_identifier_literals_are_rejected() {
    assert_eq!(parse_uuid(&b"".to_vec()), None);
    assert_eq!(parse_uuid(&b"123e4567e89b12d3a456426614174000".to_vec()), None);
    assert_eq!(parse_uuid(&b"123e4567-e89b-12d3-a456-42661417400".to_vec()), None);
    assert_eq!(parse_uuid(&b"123e4567-e89b-12d3-a456-42661417400g".to_vec()), None);
    assert_eq!(parse_uuid(&b"123e4567-e89b-12d3-a456-4266-4174000".to_vec()), None);
}

#[test]
fn routing_matches_the_four_endpoints_and_nothing_else() {
    let get = HttpMethod::Get;
    let post = HttpMethod::Post;
    let path = |text: &str| text.as_bytes().to_vec();

    assert_eq!(match_route(&get, &path("/livez")), Route::Livez);
    assert_eq!(match_route(&get, &path("/readyz")), Route::Readyz);
    assert_eq!(match_route(&post, &path("/livez")), Route::Unknown);
    assert_eq!(
        match_route(&get, &path("/secret/123e4567-e89b-12d3-a456-426614174000")),
        Route::GetSecret(0x123e4567_e89b_12d3_a456_426614174000)
    );
    assert_eq!(
        match_route(
            &post,
            &path("/secret/123e4567-e89b-12d3-a456-426614174000/contents")
        ),
        Route::PostSecretContents(0x123e4567_e89b_12d3_a456_426614174000)
    );
    assert_eq!(
        match_route(&post, &path("/secret/123e4567-e89b-12d3-a456-426614174000")),
        Route::Unknown
    );
    assert_eq!(
        match_route(&get, &path("/secret/123e4567-e89b-12d3-a456-426614174000/contents")),
        Route::Unknown
    );
    assert_eq!(match_route(&get, &path("/secret/not-a-uuid")), Route::Unknown);
    assert_eq!(match_route(&get, &path("/")), Route::Unknown);
    assert_eq!(match_route(&get, &path("")), Route::Unknown);
    assert_eq!(match_route(&HttpMethod::Other, &path("/livez")), Route::Unknown);
}

#[test]
fn verbosity_settings_map_to_backend_levels() {
    assert_eq!(LogLevel::Trace.tracing_level(), tracing::Level::TRACE);
    assert_eq!(LogLevel::Debug.tracing_level(), tracing::Level::DEBUG);
    assert_eq!(LogLevel::Info.tracing_level(), tracing::Level::INFO);
    assert_eq!(LogLevel::Warn.tracing_level(), tracing::Level::WARN);
    assert_eq!(LogLevel::Error.tracing_level(), tracing::Level::ERROR);
}

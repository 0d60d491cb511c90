//! Text codecs: addresses, identifiers, decimal numbers, error messages.

use partition_sim::addr::PeerAddr;
use partition_sim::digits::{parse_dec_capped, render_dec_i32, render_dec_u32};
use partition_sim::errors::PartitionSimError;
use partition_sim::ids::{parse_id, parse_peer_id, render_id};

#[test]
fn addr_renders_dotted_decimal() {
    let a = PeerAddr::new(10, 0, 0, 1);
    assert_eq!(a.to_text(), "10.0.0.1");
    let b = PeerAddr::new(192, 168, 192, 4);
    assert_eq!(b.to_text(), "192.168.192.4");
    let c = PeerAddr::new(0, 0, 0, 0);
    assert_eq!(c.to_text(), "0.0.0.0");
    let d = PeerAddr::new(255, 255, 255, 255);
    assert_eq!(d.to_text(), "255.255.255.255");
}

#[test]
fn addr_parse_round_trips() {
    let a = PeerAddr::new(10, 0, 0, 1);
    assert_eq!(PeerAddr::parse(&a.to_text()), Some(a));
    assert_eq!(PeerAddr::parse("192.168.1.137"), Some(PeerAddr::new(192, 168, 1, 137)));
}

#[test]
fn addr_parse_rejects_non_canonical() {
    assert_eq!(PeerAddr::parse(""), None);
    assert_eq!(PeerAddr::parse("1.2.3"), None);
    assert_eq!(PeerAddr::parse("1.2.3.4.5"), None);
    assert_eq!(PeerAddr::parse("256.0.0.1"), None);
    assert_eq!(PeerAddr::parse("01.2.3.4"), None);
    assert_eq!(PeerAddr::parse("1.2.3.x"), None);
    assert_eq!(PeerAddr::parse("1..2.3"), None);
    assert_eq!(PeerAddr::parse("1.2.3.4 "), None);
}

#[test]
fn id_renders_canonical_uuid_text() {
    let id: u128 = 0x550e8400e29b41d4a716446655440000;
    assert_eq!(render_id(id), "550e8400-e29b-41d4-a716-446655440000");
    assert_eq!(render_id(0), "00000000-0000-0000-0000-000000000000");
    assert_eq!(render_id(u128::MAX), "ffffffff-ffff-ffff-ffff-ffffffffffff");
}

#[test]
fn id_parse_round_trips() {
    let id: u128 = 0x550e8400e29b41d4a716446655440000;
    assert_eq!(parse_id(&render_id(id)), Some(id));
    assert_eq!(parse_id("00000000-0000-0000-0000-000000000000"), Some(0));
    assert_eq!(parse_id(&render_id(u128::MAX)), Some(u128::MAX));
}

#[test]
fn id_parse_rejects_non_canonical() {
    assert_eq!(parse_id(""), None);
    assert_eq!(parse_id("550e8400e29b41d4a716446655440000"), None);
    assert_eq!(parse_id("550e8400-e29b-41d4-a716-44665544000"), None);
    assert_eq!(parse_id("550e8400-e29b-41d4-a716_446655440000"), None);
    assert_eq!(parse_id("550E8400-E29B-41D4-A716-446655440000"), None);
    assert_eq!(parse_id("550e8400-e29b-41d4-a716-44665544000g"), None);
}

#[test]
fn peer_id_text_errors_are_typed() {
    let id: u128 = 7;
    assert_eq!(parse_peer_id(&render_id(id)), Ok(7));
    assert_eq!(parse_peer_id("not-an-identifier"), Err(PartitionSimError::IdentifierParseError));
}

#[test]
fn decimal_rendering_is_canonical() {
    assert_eq!(render_dec_u32(0), "0");
    assert_eq!(render_dec_u32(7), "7");
    assert_eq!(render_dec_u32(255), "255");
    assert_eq!(render_dec_u32(65535), "65535");
    assert_eq!(render_dec_u32(u32::MAX), "4294967295");
    assert_eq!(render_dec_i32(-2), "-2");
    assert_eq!(render_dec_i32(0), "0");
    assert_eq!(render_dec_i32(i32::MIN), "-2147483648");
    assert_eq!(render_dec_i32(i32::MAX), "2147483647");
}

#[test]
fn decimal_parsing_matches_rendering() {
    assert_eq!(parse_dec_capped("0", 255), Some(0));
    assert_eq!(parse_dec_capped("255", 255), Some(255));
    assert_eq!(parse_dec_capped("256", 255), None);
    assert_eq!(parse_dec_capped("9001", 65535), Some(9001));
    assert_eq!(parse_dec_capped("65536", 65535), None);
    assert_eq!(parse_dec_capped("", 255), None);
    assert_eq!(parse_dec_capped("007", 255), None);
    assert_eq!(parse_dec_capped("1a", 255), None);
    assert_eq!(parse_dec_capped("99999999999999999999", u32::MAX), None);
}

#[test]
fn error_messages_render_their_values() {
    let e = PartitionSimError::PeerNotFound { id: 0 };
    assert_eq!(e.message(), "peer not found: 00000000-0000-0000-0000-000000000000");
    let e = PartitionSimError::CommandFailed {
        exit_code: -2,
        stdout: String::from("o"),
        stderr: String::from("e"),
    };
    assert_eq!(e.message(), "remote command exited with status -2; stderr: e; stdout: o");
    assert_eq!(
        PartitionSimError::SessionUninitialized.message(),
        "session uninitialized: connect the peer first"
    );
    assert_eq!(PartitionSimError::RemoteTimeout.message(), "remote operation timed out");
    assert_eq!(
        PartitionSimError::SessionError { detail: String::from("refused") }.message(),
        "session error: refused"
    );
    assert_eq!(
        PartitionSimError::BootstrapFailed.message(),
        "failed to install the public key on a peer"
    );
    assert_eq!(
        PartitionSimError::DiscoveryFailed { detail: String::from("no peers") }.message(),
        "discovery failed: no peers"
    );
    assert_eq!(
        PartitionSimError::RegistryReloading.message(),
        "the registry was replaced while the operation was in flight"
    );
    assert_eq!(
        PartitionSimError::IdentifierParseError.message(),
        "could not parse the peer identifier"
    );
}

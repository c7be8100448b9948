use mineshaft::io_error::IoError;
use mineshaft::lan::identifier::{BedrockIdentifier, IdentifierError};
use mineshaft::lan::packets::{
    build_unconnected_ping, build_unconnected_pong, is_unconnected_ping, is_unconnected_pong,
    parse_unconnected_ping, parse_unconnected_pong, PacketError, RAKNET_MAGIC,
};
use mineshaft::server::protocol::{HeaderError, MineshaftHeader, MINESHAFT_HEADER_LEN};

#[test]
fn test_header_roundtrip() {
    let header = MineshaftHeader::new(1001, 2002);
    let _bytes = header.to_bytes();
    let payload = b"minecraft raknet payload";
    let packet = header.encapsulate(payload);

    let (decoded, remaining) = MineshaftHeader::decode(&packet).unwrap();
    assert_eq!(decoded, header);
    assert_eq!(remaining, payload);
}

#[test]
fn header_is_big_endian() {
    let header = MineshaftHeader::new(0x0102_0304, 0xa0b0_c0d0);
    assert_eq!(header.to_bytes(), [1, 2, 3, 4, 0xa0, 0xb0, 0xc0, 0xd0]);
    assert_eq!(MINESHAFT_HEADER_LEN, 8);
    assert_eq!(header.display(), "MineshaftHeader(target=16909060, sender=2695938256)");
}

#[test]
fn short_packet_has_no_header() {
    let error = MineshaftHeader::decode(&[1, 2, 3, 4, 5, 6, 7]).unwrap_err();
    assert_eq!(error, HeaderError::PacketTooShort(7));
    assert_eq!(
        error.display(),
        "Packet too short for Mineshaft header (expected at least 8 bytes, got 7)"
    );
    let (header, payload) = MineshaftHeader::decode(&[0, 0, 0, 9, 0, 0, 0, 9]).unwrap();
    assert!(header.is_handshake());
    assert!(payload.is_empty());
    assert_eq!(header, MineshaftHeader::handshake(9));
}

#[test]
fn any_packet_is_written_back() {
    let packet: Vec<u8> = (0..40).collect();
    let (header, payload) = MineshaftHeader::decode(&packet).unwrap();
    assert_eq!(header.encapsulate(payload), packet);
}

#[test]
fn test_parse_and_serialize() {
    let raw =
        "MCPE;Mehmet's World;776;1.21.60;1;10;123456789;Custom Subtitle;Survival;1;19132;19133;";
    let parsed = BedrockIdentifier::parse(raw).unwrap();
    assert_eq!(parsed.server_name, "Mehmet's World");
    assert_eq!(parsed.protocol_version, 776);
    assert_eq!(parsed.version_name, "1.21.60");
    assert_eq!(parsed.server_guid, 123456789);
    assert_eq!(parsed.port_ipv4, 19132);
    assert_eq!(parsed.serialize_to_string(), raw);

    // Rewrite ephemeral port:
    let rewritten = parsed.with_ephemeral_port(51235);
    assert_eq!(rewritten.port_ipv4, 51235);
    assert_eq!(rewritten.port_ipv6, 51235);
    assert!(rewritten.serialize_to_string().contains(";51235;51235;"));
}

#[test]
fn test_invalid_numeric_fields_are_rejected() {
    let error = BedrockIdentifier::parse("MCPE;World;776;1.21;not-a-number;10;123;").unwrap_err();
    assert!(matches!(error, IdentifierError::ParseIntError { field: "player_count", .. }));
    assert_eq!(error.display(), "Failed to parse integer field 'player_count': not-a-number");
}

#[test]
fn identifier_with_seven_parts_has_defaults() {
    let parsed = BedrockIdentifier::parse("MCPE;World;776;1.21;1;10;123;").unwrap();
    assert_eq!(parsed.sub_name, "");
    assert_eq!(parsed.game_mode, "Survival");
    assert_eq!(parsed.game_mode_numeric, 1);
    assert_eq!(parsed.port_ipv4, 19132);
    assert_eq!(parsed.port_ipv6, 19133);
    assert!(parsed.extra.is_empty());
    assert_eq!(parsed.display(), "MCPE;World;776;1.21;1;10;123;;Survival;1;19132;19133;");
}

#[test]
fn identifier_with_few_parts_is_rejected() {
    let error = BedrockIdentifier::parse("MCPE;World;776;1.21;1;10").unwrap_err();
    assert_eq!(error, IdentifierError::TooFewParts(6));
    assert_eq!(error.display(), "Identifier string has too few components: 6");
    assert_eq!(BedrockIdentifier::parse("").unwrap_err(), IdentifierError::TooFewParts(0));
}

#[test]
fn identifier_numbers_have_ranges() {
    let field = |raw: &str| match BedrockIdentifier::parse(raw) {
        Err(IdentifierError::ParseIntError { field, .. }) => field,
        _ => "",
    };
    assert_eq!(field("M;W;4294967296;v;1;1;1;"), "protocol_version");
    assert_eq!(field("M;W;1;v;1;-1;1;"), "max_player_count");
    assert_eq!(field("M;W;1;v;1;1;18446744073709551616;"), "server_guid");
    assert_eq!(field("M;W;1;v;1;1;1;s;g;x;"), "game_mode_numeric");
    assert_eq!(field("M;W;1;v;1;1;1;s;g;1;65536;"), "port_ipv4");
    assert_eq!(field("M;W;1;v;1;1;1;s;g;1;1;;"), "port_ipv6");
    assert_eq!(field("M;W;+1;v;1;1;1;s;g;1;1;1;"), "");
}

#[test]
fn identifier_extras_survive() {
    let raw = "MCPE;W;1;v;2;3;4;s;g;0;5;6;one;;three;";
    let parsed = BedrockIdentifier::parse(raw).unwrap();
    assert_eq!(parsed.extra, vec!["one".to_string(), String::new(), "three".to_string()]);
    assert_eq!(parsed.serialize_to_string(), raw);
    let again = BedrockIdentifier::parse(&parsed.serialize_to_string()).unwrap();
    assert_eq!(parsed, again);
    assert_ne!(parsed.clone(), again.with_guid(99));
}

#[test]
fn test_ping_pong_roundtrip() {
    let ts = 123456789;
    let guid = 987654321;
    let ident = "MCPE;Survival Server;776;1.21.60;1;8;987654321;Mineshaft;Survival;1;19132;19133;";

    let pong = build_unconnected_pong(ts, guid, ident).unwrap();
    assert!(is_unconnected_pong(&pong));

    let (parsed_ts, parsed_guid, parsed_ident) = parse_unconnected_pong(&pong).unwrap();
    assert_eq!(parsed_ts, ts);
    assert_eq!(parsed_guid, guid);
    assert_eq!(parsed_ident, ident);

    let ping = build_unconnected_ping(ts, guid).unwrap();
    assert!(is_unconnected_ping(&ping));
    let (ping_ts, ping_guid) = parse_unconnected_ping(&ping).unwrap();
    assert_eq!(ping_ts, ts);
    assert_eq!(ping_guid, guid);
}

#[test]
fn test_oversized_pong_identifier_is_rejected() {
    let identifier = "x".repeat(usize::from(u16::MAX) + 1);
    assert!(matches!(
        build_unconnected_pong(0, 0, &identifier),
        Err(PacketError::IdentifierTooLong(_))
    ));
    let error = build_unconnected_pong(0, 0, &identifier).unwrap_err();
    assert_eq!(
        error.display(),
        "Identifier is too long for the RakNet length field: 65536 bytes"
    );
    let longest = "x".repeat(usize::from(u16::MAX));
    let pong = build_unconnected_pong(0, 0, &longest).unwrap();
    assert_eq!(parse_unconnected_pong(&pong).unwrap().2, longest);
}

#[test]
fn ping_has_its_bytes() {
    let ping = build_unconnected_ping(0x0102_0304_0506_0708, 0x1112_1314_1516_1718).unwrap();
    let mut expected = vec![0x01, 1, 2, 3, 4, 5, 6, 7, 8];
    expected.extend_from_slice(&RAKNET_MAGIC);
    expected.extend_from_slice(&[0x11, 0x12, 0x13, 0x14, 0x15, 0x16, 0x17, 0x18]);
    assert_eq!(ping, expected);
    assert_eq!(ping.len(), 33);
}

#[test]
fn pong_has_its_bytes() {
    let pong = build_unconnected_pong(1, 2, "Ayşe").unwrap();
    let mut expected = vec![0x1c, 0, 0, 0, 0, 0, 0, 0, 1, 0, 0, 0, 0, 0, 0, 0, 2];
    expected.extend_from_slice(&RAKNET_MAGIC);
    expected.extend_from_slice(&[0, 5]);
    expected.extend_from_slice("Ayşe".as_bytes());
    assert_eq!(pong, expected);
}

#[test]
fn packet_errors_are_told_apart() {
    let short = parse_unconnected_ping(&[1; 32]).unwrap_err();
    assert!(matches!(short, PacketError::PacketTooShort(32)));
    assert_eq!(short.display(), "Packet is too short: 32 bytes");

    let mut ping = build_unconnected_ping(5, 6).unwrap();
    assert!(!is_unconnected_pong(&ping));
    let wrong = parse_unconnected_pong(&[&ping[..], &[0, 0]].concat()).unwrap_err();
    assert!(matches!(wrong, PacketError::UnexpectedPacketId { expected: 0x1c, got: 1 }));
    assert_eq!(wrong.display(), "Unexpected packet ID: expected 0x1c, got 0x01");

    ping[9] ^= 1;
    let magic = parse_unconnected_ping(&ping).unwrap_err();
    assert!(matches!(magic, PacketError::InvalidMagic));
    assert_eq!(magic.display(), "Magic bytes mismatch");
    assert!(!is_unconnected_ping(&[]));
}

#[test]
fn pong_text_must_be_whole_and_utf8() {
    let pong = build_unconnected_pong(5, 6, "abc").unwrap();
    let cut = parse_unconnected_pong(&pong[..pong.len() - 1]).unwrap_err();
    assert!(matches!(cut, PacketError::Io(IoError::UnexpectedEof(_))));
    assert_eq!(cut.display(), "IO error: failed to fill whole buffer");

    let mut invalid = pong.clone();
    let last = invalid.len() - 1;
    invalid[last] = 0xff;
    let error = parse_unconnected_pong(&invalid).unwrap_err();
    assert!(matches!(error, PacketError::Utf8(ref bytes) if bytes == b"ab\xff"));
    assert_eq!(
        error.display(),
        "Payload is not valid UTF-8: invalid utf-8 sequence of 1 bytes from index 2"
    );

    let tail = [&pong[..], b"ignored"].concat();
    assert_eq!(parse_unconnected_pong(&tail).unwrap().2, "abc");
}

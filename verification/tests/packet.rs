use sonetto::command::{route_client_packet, PacketRoute};
use sonetto::login::{build_login_error, build_login_reply, parse_login_request, LoginError};
use sonetto::packet::{ClientPacket, PacketError, ServerPacket};

#[test]
fn server_packet_encodes_big_endian_header_and_reads_back() {
    let packet = ServerPacket {
        cmd_id: -2,
        result_code: 258,
        up_tag: 7,
        down_tag: 9,
        data: vec![0xAA, 0xBB],
    };
    let bytes = packet.encode();
    assert_eq!(
        bytes,
        vec![0, 0, 0, 8, 0xFF, 0xFE, 1, 2, 7, 9, 0xAA, 0xBB]
    );
    let back = ServerPacket::decode(&bytes).unwrap();
    assert_eq!(back.cmd_id, -2);
    assert_eq!(back.result_code, 258);
    assert_eq!(back.up_tag, 7);
    assert_eq!(back.down_tag, 9);
    assert_eq!(back.data, vec![0xAA, 0xBB]);
}

#[test]
fn client_packet_encodes_big_endian_header_and_reads_back() {
    let packet = ClientPacket {
        sequence: -1,
        cmd_id: 20144,
        up_tag: 3,
        data: vec![1],
    };
    let bytes = packet.encode();
    assert_eq!(
        bytes,
        vec![0, 0, 0, 8, 0xFF, 0xFF, 0xFF, 0xFF, 0x4E, 0xB0, 3, 1]
    );
    let back = ClientPacket::decode(&bytes).unwrap();
    assert_eq!(back.sequence, -1);
    assert_eq!(back.cmd_id, 20144);
    assert_eq!(back.up_tag, 3);
    assert_eq!(back.data, vec![1]);
}

#[test]
fn packets_with_short_or_mismatched_length_are_refused() {
    assert_eq!(
        ServerPacket::decode(&[0; 9]).unwrap_err(),
        PacketError::LengthLessThanHeader(10, 9)
    );
    assert_eq!(
        ServerPacket::decode(&[0, 0, 0, 7, 0, 0, 0, 0, 0, 0]).unwrap_err(),
        PacketError::LengthMismatch(11, 10)
    );
    assert_eq!(
        ClientPacket::decode(&[0; 10]).unwrap_err(),
        PacketError::LengthLessThanHeader(11, 10)
    );
    assert_eq!(
        ClientPacket::decode(&[0xFF, 0xFF, 0xFF, 0xFF, 0, 0, 0, 0, 0, 0, 0]).unwrap_err(),
        PacketError::LengthMismatch(3, 11)
    );
}

#[test]
fn compatibility_commands_route_to_their_static_reply() {
    let request = ClientPacket {
        sequence: 1,
        cmd_id: 13540,
        up_tag: 5,
        data: vec![],
    }
    .encode();
    match route_client_packet(&request).unwrap() {
        PacketRoute::Compatibility {
            command,
            body,
            up_tag,
        } => {
            assert_eq!(command.raw_id(), 13540);
            assert_eq!(body, vec![0x0A, 0x00]);
            assert_eq!(up_tag, 5);
        }
        PacketRoute::Handler(_) => panic!("compatibility command was not intercepted"),
    }
    let other = ClientPacket {
        sequence: 1,
        cmd_id: 1,
        up_tag: 5,
        data: vec![4],
    }
    .encode();
    assert!(matches!(
        route_client_packet(&other).unwrap(),
        PacketRoute::Handler(p) if p.cmd_id == 1 && p.data == vec![4]
    ));
}

fn login_payload(account_id: &str, token: &str) -> Vec<u8> {
    let mut payload = Vec::new();
    payload.extend_from_slice(&(account_id.len() as u16).to_be_bytes());
    payload.extend_from_slice(account_id.as_bytes());
    payload.extend_from_slice(&(token.len() as u16).to_be_bytes());
    payload.extend_from_slice(token.as_bytes());
    payload
}

#[test]
fn login_request_reads_length_prefixed_account_and_token() {
    let parsed = parse_login_request(&login_payload("4242424242", "tcp-token-secret")).unwrap();
    assert_eq!(parsed.account_id, "4242424242");
    assert_eq!(parsed.token, "tcp-token-secret");
}

#[test]
fn login_request_reads_a_token_embedded_after_a_separator() {
    let mut payload = Vec::new();
    payload.extend_from_slice(&(9u16).to_be_bytes());
    payload.extend_from_slice(b"42#tok$en");
    let parsed = parse_login_request(&payload).unwrap();
    assert_eq!(parsed.account_id, "42");
    assert_eq!(parsed.token, "tok$en");

    let mut payload = Vec::new();
    payload.extend_from_slice(&(5u16).to_be_bytes());
    payload.extend_from_slice(b"42$ab");
    let parsed = parse_login_request(&payload).unwrap();
    assert_eq!(parsed.account_id, "42");
    assert_eq!(parsed.token, "ab");
}

#[test]
fn login_request_refusals() {
    assert_eq!(parse_login_request(&[0]).unwrap_err(), LoginError::TooShort);
    assert_eq!(
        parse_login_request(&[0, 3, b'a']).unwrap_err(),
        LoginError::LengthMismatch
    );
    assert_eq!(
        parse_login_request(&[0, 1, 0xFF]).unwrap_err(),
        LoginError::InvalidUtf8
    );
    let truncated_token = [0, 1, b'7', 0, 5, b'a'];
    let parsed = parse_login_request(&truncated_token).unwrap();
    assert_eq!(parsed.account_id, "7");
    assert_eq!(parsed.token, "");
}

#[test]
fn login_replies_carry_reason_and_user_id() {
    assert_eq!(
        build_login_reply(258),
        vec![0, 2, b'O', b'K', 0, 0, 0, 0, 0, 0, 1, 2]
    );
    assert_eq!(
        build_login_error("no"),
        vec![0, 2, b'n', b'o', 0, 0, 0, 0, 0, 0, 0, 0]
    );
    assert_eq!(
        build_login_reply(-1),
        vec![0, 2, b'O', b'K', 0xFF, 0xFF, 0xFF, 0xFF, 0xFF, 0xFF, 0xFF, 0xFF]
    );
}

use denounce::error::HeosError;
use denounce::heos::{
    HeosResult, Player, PlayersScan, Response, RespScan, check_ok, decode_response,
    first_player_id, parse_players, players_from_response,
};

fn decode_ok(bytes: &[u8]) -> (Response, usize) {
    match decode_response(bytes) {
        RespScan::Found(r, end) => (r, end),
        RespScan::More => panic!("decoder wants more input"),
        RespScan::Bad => panic!("decoder rejected the envelope"),
    }
}

const PLAYERS_OK: &str = "{\"heos\":{\"command\":\"player/get_players\",\"result\":\"success\",\"message\":\"\"},\"payload\":[{\"name\":\"Living Room\",\"pid\":1,\"model\":\"X\",\"version\":\"1\",\"network\":\"wired\",\"lineout\":1,\"serial\":\"S1\"}]}";

#[test]
fn players_envelope_decodes() {
    let (resp, end) = decode_ok(PLAYERS_OK.as_bytes());
    assert_eq!(end, PLAYERS_OK.len());
    assert_eq!(resp.heos.command, "player/get_players");
    assert!(matches!(resp.heos.result, HeosResult::Success));
    assert_eq!(resp.heos.message, "");
    let players = players_from_response(&resp).expect("success envelope");
    assert_eq!(players.len(), 1);
    assert_eq!(players[0].name, "Living Room");
    assert_eq!(players[0].pid, 1);
    assert_eq!(players[0].model, "X");
    assert_eq!(players[0].version, "1");
    assert_eq!(players[0].network, "wired");
    assert_eq!(players[0].lineout, 1);
    assert_eq!(players[0].serial, "S1");
    assert_eq!(first_player_id(&players), Ok(1));
}

#[test]
fn fail_result_is_protocol_error_whatever_the_payload() {
    let text = PLAYERS_OK.replace("\"result\":\"success\"", "\"result\":\"fail\"");
    let (resp, _) = decode_ok(text.as_bytes());
    assert!(matches!(resp.heos.result, HeosResult::Fail));
    match players_from_response(&resp) {
        Err(HeosError::Protocol { message }) => assert_eq!(message, ""),
        other => panic!("expected a protocol error, got {:?}", other),
    }
    // the payload's shape plays no part once the result says fail
    let odd = "{\"heos\":{\"command\":\"c\",\"result\":\"fail\",\"message\":\"no\"},\"payload\":{\"weird\":[1,2,{\"x\":null}]}}";
    let (resp, _) = decode_ok(odd.as_bytes());
    match players_from_response(&resp) {
        Err(HeosError::Protocol { message }) => assert_eq!(message, "no"),
        other => panic!("expected a protocol error, got {:?}", other),
    }
}

#[test]
fn result_is_decoded_case_insensitively() {
    let text = PLAYERS_OK.replace("\"result\":\"success\"", "\"result\":\"SuCCeSS\"");
    let (resp, _) = decode_ok(text.as_bytes());
    assert!(matches!(resp.heos.result, HeosResult::Success));
    let text = PLAYERS_OK.replace("\"result\":\"success\"", "\"result\":\"FAIL\"");
    let (resp, _) = decode_ok(text.as_bytes());
    assert!(matches!(resp.heos.result, HeosResult::Fail));
    let text = PLAYERS_OK.replace("\"result\":\"success\"", "\"result\":\"maybe\"");
    assert!(matches!(decode_response(text.as_bytes()), RespScan::Bad));
}

#[test]
fn empty_player_list_has_no_first_pid() {
    let text = "{\"heos\":{\"command\":\"player/get_players\",\"result\":\"success\",\"message\":\"\"},\"payload\":[]}";
    let (resp, _) = decode_ok(text.as_bytes());
    let players = players_from_response(&resp).expect("success envelope");
    assert_eq!(players.len(), 0);
    assert_eq!(first_player_id(&players), Err(HeosError::NotFound));
}

#[test]
fn decoder_stops_at_the_value_boundary() {
    let mut bytes = PLAYERS_OK.as_bytes().to_vec();
    let tail = b"{\"heos\":{\"command\":\"later\",\"result\":\"fail\",\"message\":\"m\"}}";
    bytes.extend_from_slice(b"\r\n");
    bytes.extend_from_slice(tail);
    let (resp, end) = decode_ok(&bytes);
    assert_eq!(end, PLAYERS_OK.len());
    assert!(matches!(resp.heos.result, HeosResult::Success));
    // the rest of the buffer still holds the unrelated later message intact
    let rest = &bytes[end..];
    assert!(rest.starts_with(b"\r\n"));
}

#[test]
fn truncated_input_asks_for_more() {
    let bytes = PLAYERS_OK.as_bytes();
    for cut in [0usize, 1, 10, 40, bytes.len() - 1] {
        assert!(
            matches!(decode_response(&bytes[..cut]), RespScan::More),
            "cut at {cut} should want more"
        );
    }
}

#[test]
fn malformed_envelopes_are_rejected() {
    for bad in [
        "[1,2,3]",
        "{\"payload\":[]}",
        "{\"heos\":{\"command\":\"c\",\"result\":\"success\"},\"payload\":[]}",
        "{\"heos\":{\"command\":1,\"result\":\"success\",\"message\":\"\"}}",
        "{\"heos\":{\"command\":\"c\",\"result\":\"success\",\"message\":\"\",\"message\":\"\"}}",
        "{\"heos\":null,\"payload\":[]}",
        "nonsense",
    ] {
        assert!(
            matches!(decode_response(bad.as_bytes()), RespScan::Bad),
            "should reject {bad}"
        );
    }
}

#[test]
fn unknown_members_are_skipped() {
    let text = "{\"extra\":{\"deep\":[true,false,null,-2.5e3]},\"heos\":{\"command\":\"c\",\"ignored\":\"x\",\"result\":\"success\",\"message\":\"ok\"}}";
    let (resp, _) = decode_ok(text.as_bytes());
    assert_eq!(resp.heos.message, "ok");
    assert_eq!(check_ok(&resp), Ok(()));
}

#[test]
fn string_escapes_are_unescaped() {
    let text = "{\"heos\":{\"command\":\"c\",\"result\":\"success\",\"message\":\"a\\\"b\\\\c\\/d\\ne\\tf\"}}";
    let (resp, _) = decode_ok(text.as_bytes());
    assert_eq!(resp.heos.message, "a\"b\\c/d\ne\tf");
}

#[test]
fn string_contents_may_hold_raw_utf8() {
    let text = PLAYERS_OK.replace("Living Room", "Wohnzimmer \u{e9}\u{1f3b5}");
    let (resp, _) = decode_ok(text.as_bytes());
    let players = players_from_response(&resp).expect("success envelope");
    assert_eq!(players[0].name, "Wohnzimmer \u{e9}\u{1f3b5}");
    // name bytes that are not valid utf-8 are rejected when the payload is
    // decoded as players
    let mut bytes = PLAYERS_OK.as_bytes().to_vec();
    let at = PLAYERS_OK.find("Living").expect("name is present");
    bytes[at] = 0xff;
    let (resp, _) = decode_ok(&bytes);
    assert!(matches!(
        players_from_response(&resp),
        Err(HeosError::Decode)
    ));
    // a lone continuation byte is rejected too
    let mut bytes = PLAYERS_OK.as_bytes().to_vec();
    bytes[at] = 0x80;
    let (resp, _) = decode_ok(&bytes);
    assert!(matches!(
        players_from_response(&resp),
        Err(HeosError::Decode)
    ));
}

#[test]
fn unicode_escapes_are_not_understood() {
    let text = "{\"heos\":{\"command\":\"c\",\"result\":\"success\",\"message\":\"a\\u0041\"}}";
    assert!(matches!(decode_response(text.as_bytes()), RespScan::Bad));
}

#[test]
fn missing_payload_counts_as_empty() {
    let text = "{\"heos\":{\"command\":\"c\",\"result\":\"success\",\"message\":\"\"}}";
    let (resp, _) = decode_ok(text.as_bytes());
    assert!(resp.payload.is_empty());
    assert_eq!(check_ok(&resp), Ok(()));
    assert!(matches!(
        players_from_response(&resp),
        Err(HeosError::Decode)
    ));
}

#[test]
fn check_ok_reports_fail_with_the_message() {
    let text = "{\"heos\":{\"command\":\"c\",\"result\":\"fail\",\"message\":\"bad things\"},\"payload\":null}";
    let (resp, _) = decode_ok(text.as_bytes());
    assert_eq!(
        check_ok(&resp),
        Err(HeosError::Protocol {
            message: String::from("bad things")
        })
    );
}

#[test]
fn player_numbers_are_checked() {
    // a pid beyond 64 bits is rejected
    let text = PLAYERS_OK.replace("\"pid\":1", "\"pid\":99999999999999999999");
    let (resp, _) = decode_ok(text.as_bytes());
    assert!(matches!(
        players_from_response(&resp),
        Err(HeosError::Decode)
    ));
    // a lineout beyond a byte is rejected
    let text = PLAYERS_OK.replace("\"lineout\":1", "\"lineout\":256");
    let (resp, _) = decode_ok(text.as_bytes());
    assert!(matches!(
        players_from_response(&resp),
        Err(HeosError::Decode)
    ));
    // a fractional pid is rejected
    let text = PLAYERS_OK.replace("\"pid\":1", "\"pid\":1.5");
    let (resp, _) = decode_ok(text.as_bytes());
    assert!(matches!(
        players_from_response(&resp),
        Err(HeosError::Decode)
    ));
    // extreme but valid pids survive
    let text = PLAYERS_OK.replace("\"pid\":1", "\"pid\":-9223372036854775808");
    let (resp, _) = decode_ok(text.as_bytes());
    let players = players_from_response(&resp).unwrap();
    assert_eq!(players[0].pid, i64::MIN);
}

#[test]
fn player_list_parses_independently() {
    let payload = b"[{\"name\":\"A\",\"pid\":7,\"model\":\"m\",\"version\":\"v\",\"network\":\"n\",\"lineout\":0,\"serial\":\"s\"},{\"name\":\"B\",\"pid\":8,\"model\":\"m\",\"version\":\"v\",\"network\":\"n\",\"lineout\":2,\"serial\":\"t\"}]";
    let players: Vec<Player> = match parse_players(payload) {
        PlayersScan::Found(v) => v,
        PlayersScan::Bad => panic!("player list should parse"),
    };
    assert_eq!(players.len(), 2);
    assert_eq!(players[0].pid, 7);
    assert_eq!(players[1].pid, 8);
    assert_eq!(players[1].name, "B");
    // order is the device's: no sorting happens
    assert_eq!(first_player_id(&players), Ok(7));
    // a list missing a field is rejected
    assert!(matches!(
        parse_players(b"[{\"name\":\"A\",\"pid\":7}]"),
        PlayersScan::Bad
    ));
    // trailing bytes after the list are rejected
    assert!(matches!(parse_players(b"[] "), PlayersScan::Bad));
}

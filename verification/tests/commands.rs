use denounce::decimal::{i64_dec, u64_dec};
use denounce::dispatch::{
    PlayUrlState, get_players_line, play_stream_line, play_url_first, play_url_on_players,
    raw_line, register_events_line, select_input_line, video_select_line,
};
use denounce::error::HeosError;
use denounce::heos::{RespScan, decode_response};
use denounce::input::Input;

const ALL_INPUTS: [Input; 13] = [
    Input::CblSat,
    Input::MediaPlayer,
    Input::BluRay,
    Input::Game,
    Input::Aux1,
    Input::Aux2,
    Input::Phono,
    Input::TvAudio,
    Input::Tuner,
    Input::Usb,
    Input::Bluetooth,
    Input::InternetRadio,
    Input::Net,
];

#[test]
fn every_input_has_its_documented_token() {
    let expected = [
        "CBLSAT", "MPLAY", "BD", "GAME", "AUX1", "AUX2", "PHONO", "TV", "TUNER", "USB", "BT",
        "IRADIO", "NET",
    ];
    for (i, input) in ALL_INPUTS.iter().enumerate() {
        assert_eq!(input.to_protocol_name(), expected[i]);
    }
}

#[test]
fn protocol_tokens_are_pairwise_distinct() {
    for a in ALL_INPUTS.iter() {
        for b in ALL_INPUTS.iter() {
            if a != b {
                assert_ne!(a.to_protocol_name(), b.to_protocol_name());
            }
        }
    }
}

#[test]
fn select_and_video_lines_are_exact() {
    assert_eq!(select_input_line(Input::MediaPlayer), "SIMPLAY\n");
    assert_eq!(select_input_line(Input::CblSat), "SICBLSAT\n");
    assert_eq!(video_select_line(Input::MediaPlayer), "SVMPLAY\n");
    assert_eq!(video_select_line(Input::TvAudio), "SVTV\n");
    assert_eq!(
        select_input_line(Input::Net).as_bytes(),
        b"SINET\n".as_slice()
    );
}

#[test]
fn raw_and_fixed_lines_are_exact() {
    assert_eq!(raw_line("PWON"), "PWON\n");
    assert_eq!(raw_line(""), "\n");
    assert_eq!(get_players_line(), "heos://player/get_players\n");
    assert_eq!(
        register_events_line(),
        "heos://system/register_for_change_events?enable=on\n"
    );
}

#[test]
fn decimal_rendering_is_exact() {
    assert_eq!(u64_dec(0), "0");
    assert_eq!(u64_dec(7), "7");
    assert_eq!(u64_dec(10), "10");
    assert_eq!(u64_dec(1234567890), "1234567890");
    assert_eq!(u64_dec(u64::MAX), "18446744073709551615");
    assert_eq!(i64_dec(0), "0");
    assert_eq!(i64_dec(-1), "-1");
    assert_eq!(i64_dec(42), "42");
    assert_eq!(i64_dec(i64::MAX), "9223372036854775807");
    assert_eq!(i64_dec(i64::MIN), "-9223372036854775808");
}

#[test]
fn play_stream_line_interpolates_verbatim() {
    assert_eq!(
        play_stream_line(1, "http://x"),
        "heos://browse/play_stream?pid=1&url=http://x\n"
    );
    assert_eq!(
        play_stream_line(-3, "http://a?b=c&d"),
        "heos://browse/play_stream?pid=-3&url=http://a?b=c&d\n"
    );
}

#[test]
fn play_url_with_pid_plays_at_once() {
    let (state, line) = play_url_first(Some(9), "http://x");
    assert_eq!(state, PlayUrlState::AwaitReply);
    assert_eq!(line, "heos://browse/play_stream?pid=9&url=http://x\n");
}

#[test]
fn play_url_without_pid_asks_for_players_first() {
    let (state, line) = play_url_first(None, "http://x");
    assert_eq!(state, PlayUrlState::AwaitPlayers);
    assert_eq!(line, "heos://player/get_players\n");
    // the device answers with one player whose pid is 1
    let reply = "{\"heos\":{\"command\":\"player/get_players\",\"result\":\"success\",\"message\":\"\"},\"payload\":[{\"name\":\"Living Room\",\"pid\":1,\"model\":\"X\",\"version\":\"1\",\"network\":\"wired\",\"lineout\":1,\"serial\":\"S1\"}]}";
    let resp = match decode_response(reply.as_bytes()) {
        RespScan::Found(r, _) => r,
        _ => panic!("reply should decode"),
    };
    let (state, line) = play_url_on_players(&resp, "http://x").expect("a player was returned");
    assert_eq!(state, PlayUrlState::AwaitReply);
    assert_eq!(line, "heos://browse/play_stream?pid=1&url=http://x\n");
}

#[test]
fn play_url_reports_an_empty_player_list() {
    let reply = "{\"heos\":{\"command\":\"player/get_players\",\"result\":\"success\",\"message\":\"\"},\"payload\":[]}";
    let resp = match decode_response(reply.as_bytes()) {
        RespScan::Found(r, _) => r,
        _ => panic!("reply should decode"),
    };
    assert_eq!(
        play_url_on_players(&resp, "http://x"),
        Err(HeosError::NotFound)
    );
}

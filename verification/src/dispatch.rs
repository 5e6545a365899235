//! Command framing and the decision core of each operation.
//!
//! Every operation is expressed as the exact line it puts on a session,
//! with the multi-step `play_url` operation split into steps that the I/O
//! layer drives: each step takes plain values and says which line to write
//! next or how a decoded reply decides the outcome.

use vstd::prelude::*;
use crate::decimal::{i64_dec, spec_dec_i64};
use crate::error::{GError, HeosError};
use crate::heos::{
    GPlayers, GResponse, HeosResult, Response, first_player_id, players_from_response,
    spec_first_player_id, spec_parse_players, spec_players_from_response,
};
use crate::input::{Input, spec_protocol_name};

verus! {

/// The line of a select-input command: `SI`, the input's token, a line
/// feed.
pub open spec fn spec_select_input_line(i: Input) -> Seq<char> {
    "SI"@ + spec_protocol_name(i) + "\n"@
}

/// The line of a video-select command: `SV`, the input's token, a line
/// feed.
pub open spec fn spec_video_select_line(i: Input) -> Seq<char> {
    "SV"@ + spec_protocol_name(i) + "\n"@
}

/// A verbatim command line: the text and a line feed.
pub open spec fn spec_raw_line(c: Seq<char>) -> Seq<char> {
    c + "\n"@
}

/// The line that requests the player list.
pub open spec fn spec_get_players_line() -> Seq<char> {
    "heos://player/get_players\n"@
}

/// The line that starts playback of a stream on a player. The url is
/// interpolated verbatim, unescaped, as the receiver expects it.
pub open spec fn spec_play_stream_line(pid: int, url: Seq<char>) -> Seq<char> {
    "heos://browse/play_stream?pid="@ + spec_dec_i64(pid) + "&url="@ + url + "\n"@
}

/// The fixed subscription command of the interactive HEOS mode.
pub open spec fn spec_register_events_line() -> Seq<char> {
    "heos://system/register_for_change_events?enable=on\n"@
}

/// Law: for every input, the select and video-select commands put exactly
/// `SI<token>` and `SV<token>`, each closed by a line feed, on the text
/// session, where the token is the input's protocol name; nothing else is
/// written and no reply is read.
pub proof fn lemma_command_lines(i: Input)
    ensures
        spec_select_input_line(i) == "SI"@ + spec_protocol_name(i) + "\n"@,
        spec_video_select_line(i) == "SV"@ + spec_protocol_name(i) + "\n"@,
{
}

/// Frames a select-input command for the text session.
pub fn select_input_line(input: Input) -> (r: String)
    ensures
        r@ == spec_select_input_line(input),
{
    let s = String::from_str("SI").concat(input.to_protocol_name()).concat("\n");
    proof {
        assert(s@ =~= spec_select_input_line(input));
    }
    s
}

/// Frames a video-select command for the text session.
pub fn video_select_line(input: Input) -> (r: String)
    ensures
        r@ == spec_video_select_line(input),
{
    let s = String::from_str("SV").concat(input.to_protocol_name()).concat("\n");
    proof {
        assert(s@ =~= spec_video_select_line(input));
    }
    s
}

/// Frames a verbatim command line for either session.
pub fn raw_line(command: &str) -> (r: String)
    ensures
        r@ == spec_raw_line(command@),
{
    let s = String::from_str(command).concat("\n");
    proof {
        assert(s@ =~= spec_raw_line(command@));
    }
    s
}

/// Frames the player-list request.
pub fn get_players_line() -> (r: String)
    ensures
        r@ == spec_get_players_line(),
{
    String::from_str("heos://player/get_players\n")
}

/// Frames the subscription command of the interactive HEOS mode.
pub fn register_events_line() -> (r: String)
    ensures
        r@ == spec_register_events_line(),
{
    String::from_str("heos://system/register_for_change_events?enable=on\n")
}

/// Frames the play-stream command for a player.
pub fn play_stream_line(pid: i64, url: &str) -> (r: String)
    ensures
        r@ == spec_play_stream_line(pid as int, url@),
{
    let s = String::from_str("heos://browse/play_stream?pid=").concat(i64_dec(pid).as_str())
        .concat("&url=").concat(url).concat("\n");
    proof {
        assert(s@ =~= spec_play_stream_line(pid as int, url@));
    }
    s
}

// ---------------------------------------------------------------------------
// The play-url operation
// ---------------------------------------------------------------------------

/// Where a play-url operation stands after a line has gone out.
#[derive(Copy, Clone, PartialEq, Eq, Structural, Debug)]
pub enum PlayUrlState {
    /// The player list was requested; its reply resolves the pid.
    AwaitPlayers,
    /// The play command went out; its reply decides the outcome.
    AwaitReply,
}

/// The first step of `play_url`: with a pid in hand the play command goes
/// out at once, otherwise the player list is requested first.
pub open spec fn spec_play_url_first(pid: Option<i64>, url: Seq<char>) -> (PlayUrlState, Seq<
    char,
>) {
    match pid {
        Some(p) => (PlayUrlState::AwaitReply, spec_play_stream_line(p as int, url)),
        None => (PlayUrlState::AwaitPlayers, spec_get_players_line()),
    }
}

/// Decides the first line of a play-url operation.
pub fn play_url_first(pid: Option<i64>, url: &str) -> (r: (PlayUrlState, String))
    ensures
        r.0 == spec_play_url_first(pid, url@).0,
        r.1@ == spec_play_url_first(pid, url@).1,
{
    match pid {
        Some(p) => (PlayUrlState::AwaitReply, play_stream_line(p, url)),
        None => (PlayUrlState::AwaitPlayers, get_players_line()),
    }
}

/// The second step when the player list had to be fetched: a `fail` reply
/// or an undecodable payload aborts, an empty list leaves no player to play
/// on, and otherwise the play command for the first player's pid goes out.
pub open spec fn spec_play_url_on_players(resp: GResponse, url: Seq<char>) -> Result<
    (PlayUrlState, Seq<char>),
    GError,
> {
    match spec_players_from_response(resp) {
        Err(e) => Err(e),
        Ok(list) => match spec_first_player_id(list) {
            Err(e) => Err(e),
            Ok(pid) => Ok((PlayUrlState::AwaitReply, spec_play_stream_line(pid as int, url))),
        },
    }
}

/// Resolves the pid from the player-list reply and decides the play line.
pub fn play_url_on_players(resp: &Response, url: &str) -> (r: Result<
    (PlayUrlState, String),
    HeosError,
>)
    ensures
        match r {
            Ok(step) => spec_play_url_on_players(resp@, url@) matches Ok(sp) && step.0 == sp.0
                && step.1@ == sp.1,
            Err(e) => spec_play_url_on_players(resp@, url@) == Err::<(PlayUrlState, Seq<char>),
                GError,
            >(e@),
        },
{
    let players = match players_from_response(resp) {
        Ok(v) => v,
        Err(e) => {
            return Err(e);
        },
    };
    let pid = match first_player_id(&players) {
        Ok(p) => p,
        Err(e) => {
            return Err(e);
        },
    };
    Ok((PlayUrlState::AwaitReply, play_stream_line(pid, url)))
}

/// Law: a play-url operation given no pid first requests the player list;
/// a successful list reply with at least one player makes the next line the
/// play command for exactly the first player's pid; and the reply to that
/// line alone decides the outcome, a `fail` result carrying the device's
/// message (see `spec_check`).
pub proof fn lemma_play_url_order(url: Seq<char>, players_resp: GResponse)
    ensures
        spec_play_url_first(None, url) == (PlayUrlState::AwaitPlayers, spec_get_players_line()),
        spec_play_url_on_players(players_resp, url) matches Ok(sp)
            ==> players_resp.heos.result == HeosResult::Success && sp.0
            == PlayUrlState::AwaitReply && (spec_parse_players(players_resp.payload)
            matches GPlayers::Found { list } && list.len() > 0 && sp.1 == spec_play_stream_line(
            list[0].pid as int,
            url,
        )),
{
}

} // verus!
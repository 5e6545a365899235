//! The JSON response envelope of the receiver's control protocol.
//!
//! Every reply is one JSON object `{"heos": {"command", "result",
//! "message"}, "payload": ...}`. The decoder reads exactly one such value
//! from a byte buffer: the three header fields are decoded exactly, the
//! `result` discriminator case-insensitively, while the payload is kept as
//! its raw byte span and only decoded once the discriminator has been
//! checked. A payload of player records has its own exact decoder.

use vstd::prelude::*;
use vstd::slice::slice_to_vec;
use crate::error::{GError, HeosError};
use crate::json::{
    GStr, IntScan, Scan, StrScan, lemma_parse_int_bounds, lemma_parse_string_bounds,
    lemma_skip_value_bounds, lemma_skip_ws_bounds, parse_int, parse_string_bytes, skip_value,
    skip_ws, spec_parse_int, spec_parse_string, spec_skip_value, spec_skip_ws, utf8_to_string,
};

verus! {

/// The two-valued result discriminator of a response envelope.
#[derive(Copy, Clone, PartialEq, Eq, Structural, Debug)]
pub enum HeosResult {
    Success,
    Fail,
}

/// Mathematical model of a response header.
pub ghost struct GHeader {
    pub command: Seq<char>,
    pub result: HeosResult,
    pub message: Seq<char>,
}

/// Mathematical model of a response envelope: decoded header, raw payload
/// bytes (empty when the envelope has no payload member).
pub ghost struct GResponse {
    pub heos: GHeader,
    pub payload: Seq<u8>,
}

/// Mathematical model of a player record.
pub ghost struct GPlayer {
    pub name: Seq<char>,
    pub pid: i64,
    pub model: Seq<char>,
    pub version: Seq<char>,
    pub network: Seq<char>,
    pub lineout: u8,
    pub serial: Seq<char>,
}

/// The status header of a response envelope.
#[derive(Debug)]
pub struct Header {
    pub command: String,
    pub result: HeosResult,
    pub message: String,
}

impl View for Header {
    type V = GHeader;

    open spec fn view(&self) -> GHeader {
        GHeader { command: self.command@, result: self.result, message: self.message@ }
    }
}

/// A decoded response envelope, its payload still raw.
#[derive(Debug)]
pub struct Response {
    pub heos: Header,
    pub payload: Vec<u8>,
}

impl View for Response {
    type V = GResponse;

    open spec fn view(&self) -> GResponse {
        GResponse { heos: self.heos@, payload: self.payload@ }
    }
}

/// One playback endpoint as the device reports it.
#[derive(Debug)]
pub struct Player {
    pub name: String,
    pub pid: i64,
    pub model: String,
    pub version: String,
    pub network: String,
    pub lineout: u8,
    pub serial: String,
}

impl View for Player {
    type V = GPlayer;

    open spec fn view(&self) -> GPlayer {
        GPlayer {
            name: self.name@,
            pid: self.pid,
            model: self.model@,
            version: self.version@,
            network: self.network@,
            lineout: self.lineout,
            serial: self.serial@,
        }
    }
}

// ---------------------------------------------------------------------------
// The result discriminator
// ---------------------------------------------------------------------------

/// ASCII lowercasing of one byte.
pub open spec fn spec_lower_byte(b: u8) -> u8 {
    if 0x41 <= b <= 0x5a {
        (b + 0x20) as u8
    } else {
        b
    }
}

/// Case-insensitive equality of `a` with the lowercase word `w`.
pub open spec fn spec_ci_eq(a: Seq<u8>, w: Seq<u8>) -> bool {
    a.len() == w.len() && forall|k: int|
        0 <= k < a.len() ==> spec_lower_byte(#[trigger] a[k]) == w[k]
}

/// The discriminator a raw `result` string stands for, decoded
/// case-insensitively; anything besides `success` and `fail` is unknown.
pub open spec fn spec_result_of(a: Seq<u8>) -> Option<HeosResult> {
    if spec_ci_eq(a, seq![0x73u8, 0x75u8, 0x63u8, 0x63u8, 0x65u8, 0x73u8, 0x73u8]) {
        Some(HeosResult::Success)
    } else if spec_ci_eq(a, seq![0x66u8, 0x61u8, 0x69u8, 0x6cu8]) {
        Some(HeosResult::Fail)
    } else {
        None
    }
}

fn lower_byte(b: u8) -> (r: u8)
    ensures
        r == spec_lower_byte(b),
{
    if 0x41 <= b && b <= 0x5a {
        b + 0x20
    } else {
        b
    }
}

/// Decodes the `result` discriminator from its raw string bytes.
fn classify_result(a: &Vec<u8>) -> (r: Option<HeosResult>)
    ensures
        r == spec_result_of(a@),
{
    if a.len() == 7 && lower_byte(a[0]) == 0x73 && lower_byte(a[1]) == 0x75 && lower_byte(a[2])
        == 0x63 && lower_byte(a[3]) == 0x63 && lower_byte(a[4]) == 0x65 && lower_byte(a[5])
        == 0x73 && lower_byte(a[6]) == 0x73 {
        Some(HeosResult::Success)
    } else if a.len() == 4 && lower_byte(a[0]) == 0x66 && lower_byte(a[1]) == 0x61 && lower_byte(
        a[2],
    ) == 0x69 && lower_byte(a[3]) == 0x6c {
        Some(HeosResult::Fail)
    } else {
        None
    }
}

// ---------------------------------------------------------------------------
// Member keys
// ---------------------------------------------------------------------------

pub open spec fn key_heos() -> Seq<u8> {
    seq![0x68u8, 0x65u8, 0x6fu8, 0x73u8]
}

pub open spec fn key_payload() -> Seq<u8> {
    seq![0x70u8, 0x61u8, 0x79u8, 0x6cu8, 0x6fu8, 0x61u8, 0x64u8]
}

pub open spec fn key_command() -> Seq<u8> {
    seq![0x63u8, 0x6fu8, 0x6du8, 0x6du8, 0x61u8, 0x6eu8, 0x64u8]
}

pub open spec fn key_result() -> Seq<u8> {
    seq![0x72u8, 0x65u8, 0x73u8, 0x75u8, 0x6cu8, 0x74u8]
}

pub open spec fn key_message() -> Seq<u8> {
    seq![0x6du8, 0x65u8, 0x73u8, 0x73u8, 0x61u8, 0x67u8, 0x65u8]
}

pub open spec fn key_name() -> Seq<u8> {
    seq![0x6eu8, 0x61u8, 0x6du8, 0x65u8]
}

pub open spec fn key_pid() -> Seq<u8> {
    seq![0x70u8, 0x69u8, 0x64u8]
}

pub open spec fn key_model() -> Seq<u8> {
    seq![0x6du8, 0x6fu8, 0x64u8, 0x65u8, 0x6cu8]
}

pub open spec fn key_version() -> Seq<u8> {
    seq![0x76u8, 0x65u8, 0x72u8, 0x73u8, 0x69u8, 0x6fu8, 0x6eu8]
}

pub open spec fn key_network() -> Seq<u8> {
    seq![0x6eu8, 0x65u8, 0x74u8, 0x77u8, 0x6fu8, 0x72u8, 0x6bu8]
}

pub open spec fn key_lineout() -> Seq<u8> {
    seq![0x6cu8, 0x69u8, 0x6eu8, 0x65u8, 0x6fu8, 0x75u8, 0x74u8]
}

pub open spec fn key_serial() -> Seq<u8> {
    seq![0x73u8, 0x65u8, 0x72u8, 0x69u8, 0x61u8, 0x6cu8]
}

/// Byte-for-byte equality of two byte slices.
fn bytes_eq(a: &[u8], b: &[u8]) -> (r: bool)
    ensures
        r == (a@ == b@),
{
    if a.len() != b.len() {
        return false;
    }
    let mut k: usize = 0;
    while k < a.len()
        invariant
            k <= a@.len(),
            a@.len() == b@.len(),
            forall|m: int| 0 <= m < k ==> a@[m] == b@[m],
        decreases a@.len() - k,
    {
        if a[k] != b[k] {
            return false;
        }
        k = k + 1;
    }
    proof {
        assert(a@ =~= b@);
    }
    true
}

// ---------------------------------------------------------------------------
// Header objects
// ---------------------------------------------------------------------------

/// Outcome of decoding a header object, as a model value.
pub ghost enum GHdr {
    Found { hdr: GHeader, end: int },
    More,
    Bad,
}

/// Outcome of decoding one header member's value.
pub ghost enum GHdrStep {
    Next { cmd: Option<Seq<u8>>, res: Option<Seq<u8>>, msg: Option<Seq<u8>>, end: int },
    More,
    Bad,
}

/// The raw field bytes a collected option stands for.
pub open spec fn opt_bytes_view(o: Option<Vec<u8>>) -> Option<Seq<u8>> {
    match o {
        Some(v) => Some(v@),
        None => None,
    }
}

/// Closes a header object at `end`: all three fields must have appeared and
/// the discriminator must be known.
pub open spec fn spec_hdr_finish(
    cmd: Option<Seq<u8>>,
    res: Option<Seq<u8>>,
    msg: Option<Seq<u8>>,
    end: int,
) -> GHdr {
    match (cmd, res, msg) {
        (Some(c), Some(r), Some(m)) => match spec_result_of(r) {
            Some(hr) => GHdr::Found {
                hdr: GHeader {
                    command: vstd::utf8::decode_utf8(c),
                    result: hr,
                    message: vstd::utf8::decode_utf8(m),
                },
                end,
            },
            None => GHdr::Bad,
        },
        _ => GHdr::Bad,
    }
}

/// Decodes one header member's value at `v` under the given key. The three
/// known keys must hold strings and may not repeat; any other member is
/// skipped untyped.
pub open spec fn spec_hdr_member(
    s: Seq<u8>,
    v: int,
    key: Seq<u8>,
    cmd: Option<Seq<u8>>,
    res: Option<Seq<u8>>,
    msg: Option<Seq<u8>>,
) -> GHdrStep {
    if key == key_command() {
        match spec_parse_string(s, v) {
            GStr::Found { bytes, end } => if cmd is Some {
                GHdrStep::Bad
            } else {
                GHdrStep::Next { cmd: Some(bytes), res, msg, end }
            },
            GStr::More => GHdrStep::More,
            GStr::Bad => GHdrStep::Bad,
        }
    } else if key == key_result() {
        match spec_parse_string(s, v) {
            GStr::Found { bytes, end } => if res is Some {
                GHdrStep::Bad
            } else {
                GHdrStep::Next { cmd, res: Some(bytes), msg, end }
            },
            GStr::More => GHdrStep::More,
            GStr::Bad => GHdrStep::Bad,
        }
    } else if key == key_message() {
        match spec_parse_string(s, v) {
            GStr::Found { bytes, end } => if msg is Some {
                GHdrStep::Bad
            } else {
                GHdrStep::Next { cmd, res, msg: Some(bytes), end }
            },
            GStr::More => GHdrStep::More,
            GStr::Bad => GHdrStep::Bad,
        }
    } else {
        match spec_skip_value(s, v) {
            Scan::Found(e) => GHdrStep::Next { cmd, res, msg, end: e as int },
            Scan::More => GHdrStep::More,
            Scan::Bad => GHdrStep::Bad,
        }
    }
}

/// Decodes the members of a header object from `i` (just inside the brace,
/// or just after a comma when not `first`) to its closing brace.
pub open spec fn spec_hdr_members(
    s: Seq<u8>,
    i: int,
    cmd: Option<Seq<u8>>,
    res: Option<Seq<u8>>,
    msg: Option<Seq<u8>>,
    first: bool,
) -> GHdr
    decreases s.len() - i,
    via spec_hdr_members_dec
{
    if !(0 <= i <= s.len() <= usize::MAX) {
        GHdr::Bad
    } else {
        let j = spec_skip_ws(s, i);
        if j >= s.len() {
            GHdr::More
        } else if s[j] == 0x7d {
            if first {
                spec_hdr_finish(cmd, res, msg, j + 1)
            } else {
                GHdr::Bad
            }
        } else {
            match spec_parse_string(s, j) {
                GStr::More => GHdr::More,
                GStr::Bad => GHdr::Bad,
                GStr::Found { bytes: key, end: e1 } => {
                    let c = spec_skip_ws(s, e1);
                    if c >= s.len() {
                        GHdr::More
                    } else if s[c] != 0x3a {
                        GHdr::Bad
                    } else {
                        match spec_hdr_member(s, spec_skip_ws(s, c + 1), key, cmd, res, msg) {
                            GHdrStep::More => GHdr::More,
                            GHdrStep::Bad => GHdr::Bad,
                            GHdrStep::Next { cmd: cmd2, res: res2, msg: msg2, end } => {
                                let t = spec_skip_ws(s, end);
                                if t >= s.len() {
                                    GHdr::More
                                } else if s[t] == 0x2c {
                                    spec_hdr_members(s, t + 1, cmd2, res2, msg2, false)
                                } else if s[t] == 0x7d {
                                    spec_hdr_finish(cmd2, res2, msg2, t + 1)
                                } else {
                                    GHdr::Bad
                                }
                            },
                        }
                    }
                }
            }
        }
    }
}

#[via_fn]
proof fn spec_hdr_members_dec(
    s: Seq<u8>,
    i: int,
    cmd: Option<Seq<u8>>,
    res: Option<Seq<u8>>,
    msg: Option<Seq<u8>>,
    first: bool,
) {
    if 0 <= i <= s.len() <= usize::MAX {
        lemma_skip_ws_bounds(s, i);
        let j = spec_skip_ws(s, i);
        if j < s.len() {
            lemma_parse_string_bounds(s, j);
            match spec_parse_string(s, j) {
                GStr::Found { bytes: key, end: e1 } => {
                    lemma_skip_ws_bounds(s, e1);
                    let c = spec_skip_ws(s, e1);
                    if c < s.len() {
                        lemma_skip_ws_bounds(s, c + 1);
                        let v = spec_skip_ws(s, c + 1);
                        lemma_parse_string_bounds(s, v);
                        lemma_skip_value_bounds(s, v);
                        match spec_hdr_member(s, v, key, cmd, res, msg) {
                            GHdrStep::Next { cmd: cmd2, res: res2, msg: msg2, end } => {
                                assert(v < end <= s.len());
                                lemma_skip_ws_bounds(s, end);
                            },
                            _ => {},
                        }
                    }
                },
                _ => {},
            }
        }
    }
}

/// Outcome of the executable header decoder.
#[derive(Debug)]
pub enum HdrScan {
    Found(Header, usize),
    More,
    Bad,
}

/// Decodes a whole header object at `i`, braces included.
pub open spec fn spec_parse_header(s: Seq<u8>, i: int) -> GHdr {
    if i >= s.len() {
        GHdr::More
    } else if s[i] != 0x7b {
        GHdr::Bad
    } else {
        spec_hdr_members(s, i + 1, None, None, None, true)
    }
}

/// A collected field's bytes form valid UTF-8.
pub open spec fn opt_bytes_utf8(o: Option<Vec<u8>>) -> bool {
    match o {
        Some(b) => vstd::utf8::valid_utf8(b@),
        None => true,
    }
}

fn hdr_finish(cmd: Option<Vec<u8>>, res: Option<Vec<u8>>, msg: Option<Vec<u8>>, end: usize) -> (r:
    HdrScan)
    requires
        opt_bytes_utf8(cmd),
        opt_bytes_utf8(msg),
    ensures
        match r {
            HdrScan::Found(h, e) => spec_hdr_finish(
                opt_bytes_view(cmd),
                opt_bytes_view(res),
                opt_bytes_view(msg),
                end as int,
            ) == (GHdr::Found { hdr: h@, end: e as int }) && e == end,
            HdrScan::More => false,
            HdrScan::Bad => spec_hdr_finish(
                opt_bytes_view(cmd),
                opt_bytes_view(res),
                opt_bytes_view(msg),
                end as int,
            ) is Bad,
        },
{
    let cb = match cmd {
        Some(b) => b,
        None => {
            return HdrScan::Bad;
        },
    };
    let rb = match res {
        Some(b) => b,
        None => {
            return HdrScan::Bad;
        },
    };
    let mb = match msg {
        Some(b) => b,
        None => {
            return HdrScan::Bad;
        },
    };
    let hr = match classify_result(&rb) {
        Some(h) => h,
        None => {
            return HdrScan::Bad;
        },
    };
    let command = utf8_to_string(cb);
    let message = utf8_to_string(mb);
    HdrScan::Found(Header { command, result: hr, message }, end)
}

/// Decodes a whole header object at `i`.
pub fn parse_header(s: &[u8], i: usize) -> (r: HdrScan)
    requires
        i <= s@.len(),
    ensures
        match r {
            HdrScan::Found(h, end) => spec_parse_header(s@, i as int) == (GHdr::Found {
                hdr: h@,
                end: end as int,
            }) && i < end <= s@.len(),
            HdrScan::More => spec_parse_header(s@, i as int) is More,
            HdrScan::Bad => spec_parse_header(s@, i as int) is Bad,
        },
{
    if i >= s.len() {
        return HdrScan::More;
    }
    if s[i] != 0x7b {
        return HdrScan::Bad;
    }
    let mut cmd: Option<Vec<u8>> = None;
    let mut res: Option<Vec<u8>> = None;
    let mut msg: Option<Vec<u8>> = None;
    let mut pos = i + 1;
    let mut first = true;
    loop
        invariant
            i < pos <= s@.len(),
            spec_parse_header(s@, i as int) == spec_hdr_members(
                s@,
                pos as int,
                opt_bytes_view(cmd),
                opt_bytes_view(res),
                opt_bytes_view(msg),
                first,
            ),
            opt_bytes_utf8(cmd),
            opt_bytes_utf8(msg),
        decreases s@.len() - pos,
    {
        let j = skip_ws(s, pos);
        if j >= s.len() {
            return HdrScan::More;
        }
        if s[j] == 0x7d {
            if first {
                return hdr_finish(cmd, res, msg, j + 1);
            } else {
                return HdrScan::Bad;
            }
        }
        let (key, e1) = match parse_string_bytes(s, j) {
            StrScan::Found(b, e) => (b, e),
            StrScan::More => {
                return HdrScan::More;
            },
            StrScan::Bad => {
                return HdrScan::Bad;
            },
        };
        proof {
            lemma_parse_string_bounds(s@, j as int);
        }
        let c = skip_ws(s, e1);
        if c >= s.len() {
            return HdrScan::More;
        }
        if s[c] != 0x3a {
            return HdrScan::Bad;
        }
        let v = skip_ws(s, c + 1);
        let kw_command: [u8; 7] = [0x63, 0x6f, 0x6d, 0x6d, 0x61, 0x6e, 0x64];
        let kw_result: [u8; 6] = [0x72, 0x65, 0x73, 0x75, 0x6c, 0x74];
        let kw_message: [u8; 7] = [0x6d, 0x65, 0x73, 0x73, 0x61, 0x67, 0x65];
        proof {
            assert(kw_command@ =~= key_command());
            assert(kw_result@ =~= key_result());
            assert(kw_message@ =~= key_message());
        }
        let end2: usize;
        if bytes_eq(key.as_slice(), kw_command.as_slice()) {
            let (val, e2) = match parse_string_bytes(s, v) {
                StrScan::Found(b, e) => (b, e),
                StrScan::More => {
                    return HdrScan::More;
                },
                StrScan::Bad => {
                    return HdrScan::Bad;
                },
            };
            if cmd.is_some() {
                return HdrScan::Bad;
            }
            proof {
                lemma_parse_string_bounds(s@, v as int);
            }
            cmd = Some(val);
            end2 = e2;
        } else if bytes_eq(key.as_slice(), kw_result.as_slice()) {
            let (val, e2) = match parse_string_bytes(s, v) {
                StrScan::Found(b, e) => (b, e),
                StrScan::More => {
                    return HdrScan::More;
                },
                StrScan::Bad => {
                    return HdrScan::Bad;
                },
            };
            if res.is_some() {
                return HdrScan::Bad;
            }
            proof {
                lemma_parse_string_bounds(s@, v as int);
            }
            res = Some(val);
            end2 = e2;
        } else if bytes_eq(key.as_slice(), kw_message.as_slice()) {
            let (val, e2) = match parse_string_bytes(s, v) {
                StrScan::Found(b, e) => (b, e),
                StrScan::More => {
                    return HdrScan::More;
                },
                StrScan::Bad => {
                    return HdrScan::Bad;
                },
            };
            if msg.is_some() {
                return HdrScan::Bad;
            }
            proof {
                lemma_parse_string_bounds(s@, v as int);
            }
            msg = Some(val);
            end2 = e2;
        } else {
            end2 = match skip_value(s, v) {
                Scan::Found(e) => e,
                Scan::More => {
                    return HdrScan::More;
                },
                Scan::Bad => {
                    return HdrScan::Bad;
                },
            };
        }
        let t = skip_ws(s, end2);
        if t >= s.len() {
            return HdrScan::More;
        }
        if s[t] == 0x2c {
            pos = t + 1;
            first = false;
        } else if s[t] == 0x7d {
            return hdr_finish(cmd, res, msg, t + 1);
        } else {
            return HdrScan::Bad;
        }
    }
}

pub proof fn lemma_hdr_members_bounds(
    s: Seq<u8>,
    i: int,
    cmd: Option<Seq<u8>>,
    res: Option<Seq<u8>>,
    msg: Option<Seq<u8>>,
    first: bool,
)
    ensures
        spec_hdr_members(s, i, cmd, res, msg, first) matches GHdr::Found { hdr, end } ==> i < end
            <= s.len(),
    decreases s.len() - i,
{
    if 0 <= i <= s.len() <= usize::MAX {
        lemma_skip_ws_bounds(s, i);
        let j = spec_skip_ws(s, i);
        if j < s.len() {
            lemma_parse_string_bounds(s, j);
            match spec_parse_string(s, j) {
                GStr::Found { bytes: key, end: e1 } => {
                    lemma_skip_ws_bounds(s, e1);
                    let c = spec_skip_ws(s, e1);
                    if c < s.len() {
                        lemma_skip_ws_bounds(s, c + 1);
                        let v = spec_skip_ws(s, c + 1);
                        lemma_parse_string_bounds(s, v);
                        lemma_skip_value_bounds(s, v);
                        match spec_hdr_member(s, v, key, cmd, res, msg) {
                            GHdrStep::Next { cmd: cmd2, res: res2, msg: msg2, end } => {
                                assert(v < end <= s.len());
                                lemma_skip_ws_bounds(s, end);
                                let t = spec_skip_ws(s, end);
                                if t < s.len() && s[t] == 0x2c {
                                    lemma_hdr_members_bounds(s, t + 1, cmd2, res2, msg2, false);
                                }
                            },
                            _ => {},
                        }
                    }
                },
                _ => {},
            }
        }
    }
}

pub proof fn lemma_parse_header_bounds(s: Seq<u8>, i: int)
    requires
        0 <= i <= s.len(),
    ensures
        spec_parse_header(s, i) matches GHdr::Found { hdr, end } ==> i < end <= s.len(),
{
    if i < s.len() && s[i] == 0x7b {
        lemma_hdr_members_bounds(s, i + 1, None, None, None, true);
    }
}

// ---------------------------------------------------------------------------
// The envelope
// ---------------------------------------------------------------------------

/// Outcome of decoding a whole response envelope, as a model value.
pub ghost enum GResp {
    Found { resp: GResponse, end: int },
    More,
    Bad,
}

/// Outcome of decoding one envelope member.
pub ghost enum GEnvStep {
    Next { hdr: Option<GHeader>, payload: Option<Seq<u8>>, end: int },
    More,
    Bad,
}

/// Closes an envelope at `end`: the header must have appeared; a missing
/// payload member stands for an empty payload.
pub open spec fn spec_env_finish(hdr: Option<GHeader>, payload: Option<Seq<u8>>, end: int) -> GResp {
    match hdr {
        Some(h) => GResp::Found {
            resp: GResponse {
                heos: h,
                payload: match payload {
                    Some(p) => p,
                    None => Seq::empty(),
                },
            },
            end,
        },
        None => GResp::Bad,
    }
}

/// Decodes one envelope member's value at `v` under the given key: `heos`
/// holds the header object, `payload` keeps its raw span, anything else is
/// skipped untyped; no known key may repeat.
pub open spec fn spec_env_member(
    s: Seq<u8>,
    v: int,
    key: Seq<u8>,
    hdr: Option<GHeader>,
    payload: Option<Seq<u8>>,
) -> GEnvStep {
    if key == key_heos() {
        match spec_parse_header(s, v) {
            GHdr::Found { hdr: h, end } => if hdr is Some {
                GEnvStep::Bad
            } else {
                GEnvStep::Next { hdr: Some(h), payload, end }
            },
            GHdr::More => GEnvStep::More,
            GHdr::Bad => GEnvStep::Bad,
        }
    } else if key == key_payload() {
        match spec_skip_value(s, v) {
            Scan::Found(e) => if payload is Some {
                GEnvStep::Bad
            } else {
                GEnvStep::Next { hdr, payload: Some(s.subrange(v, e as int)), end: e as int }
            },
            Scan::More => GEnvStep::More,
            Scan::Bad => GEnvStep::Bad,
        }
    } else {
        match spec_skip_value(s, v) {
            Scan::Found(e) => GEnvStep::Next { hdr, payload, end: e as int },
            Scan::More => GEnvStep::More,
            Scan::Bad => GEnvStep::Bad,
        }
    }
}

/// Decodes the members of an envelope object from `i` to its closing brace.
pub open spec fn spec_env_members(
    s: Seq<u8>,
    i: int,
    hdr: Option<GHeader>,
    payload: Option<Seq<u8>>,
    first: bool,
) -> GResp
    decreases s.len() - i,
    via spec_env_members_dec
{
    if !(0 <= i <= s.len() <= usize::MAX) {
        GResp::Bad
    } else {
        let j = spec_skip_ws(s, i);
        if j >= s.len() {
            GResp::More
        } else if s[j] == 0x7d {
            if first {
                spec_env_finish(hdr, payload, j + 1)
            } else {
                GResp::Bad
            }
        } else {
            match spec_parse_string(s, j) {
                GStr::More => GResp::More,
                GStr::Bad => GResp::Bad,
                GStr::Found { bytes: key, end: e1 } => {
                    let c = spec_skip_ws(s, e1);
                    if c >= s.len() {
                        GResp::More
                    } else if s[c] != 0x3a {
                        GResp::Bad
                    } else {
                        match spec_env_member(s, spec_skip_ws(s, c + 1), key, hdr, payload) {
                            GEnvStep::More => GResp::More,
                            GEnvStep::Bad => GResp::Bad,
                            GEnvStep::Next { hdr: hdr2, payload: payload2, end } => {
                                let t = spec_skip_ws(s, end);
                                if t >= s.len() {
                                    GResp::More
                                } else if s[t] == 0x2c {
                                    spec_env_members(s, t + 1, hdr2, payload2, false)
                                } else if s[t] == 0x7d {
                                    spec_env_finish(hdr2, payload2, t + 1)
                                } else {
                                    GResp::Bad
                                }
                            },
                        }
                    }
                }
            }
        }
    }
}

#[via_fn]
proof fn spec_env_members_dec(
    s: Seq<u8>,
    i: int,
    hdr: Option<GHeader>,
    payload: Option<Seq<u8>>,
    first: bool,
) {
    if 0 <= i <= s.len() <= usize::MAX {
        lemma_skip_ws_bounds(s, i);
        let j = spec_skip_ws(s, i);
        if j < s.len() {
            lemma_parse_string_bounds(s, j);
            match spec_parse_string(s, j) {
                GStr::Found { bytes: key, end: e1 } => {
                    lemma_skip_ws_bounds(s, e1);
                    let c = spec_skip_ws(s, e1);
                    if c < s.len() {
                        lemma_skip_ws_bounds(s, c + 1);
                        let v = spec_skip_ws(s, c + 1);
                        lemma_parse_header_bounds(s, v);
                        lemma_skip_value_bounds(s, v);
                        match spec_env_member(s, v, key, hdr, payload) {
                            GEnvStep::Next { hdr: hdr2, payload: payload2, end } => {
                                assert(v < end <= s.len());
                                lemma_skip_ws_bounds(s, end);
                            },
                            _ => {},
                        }
                    }
                },
                _ => {},
            }
        }
    }
}

/// Decodes exactly one response envelope from the start of the buffer:
/// leading whitespace, then one envelope object. The reported end is the
/// position just past its closing brace; nothing beyond it is read.
pub open spec fn spec_decode_response(s: Seq<u8>) -> GResp {
    if s.len() > usize::MAX {
        GResp::Bad
    } else {
        let j = spec_skip_ws(s, 0);
        if j >= s.len() {
            GResp::More
        } else if s[j] != 0x7b {
            GResp::Bad
        } else {
            spec_env_members(s, j + 1, None, None, true)
        }
    }
}

/// Outcome of the executable envelope decoder.
#[derive(Debug)]
pub enum RespScan {
    Found(Response, usize),
    More,
    Bad,
}

/// Decodes exactly one response envelope from the start of the buffer.
/// `More` asks the caller to supply more bytes; the buffer's first `end`
/// bytes are consumed on success and later bytes are never inspected.
pub fn decode_response(s: &[u8]) -> (r: RespScan)
    ensures
        match r {
            RespScan::Found(resp, end) => spec_decode_response(s@) == (GResp::Found {
                resp: resp@,
                end: end as int,
            }) && end <= s@.len(),
            RespScan::More => spec_decode_response(s@) is More,
            RespScan::Bad => spec_decode_response(s@) is Bad,
        },
{
    let j0 = skip_ws(s, 0);
    if j0 >= s.len() {
        return RespScan::More;
    }
    if s[j0] != 0x7b {
        return RespScan::Bad;
    }
    let mut hdr: Option<Header> = None;
    let mut payload: Option<Vec<u8>> = None;
    let mut pos = j0 + 1;
    let mut first = true;
    loop
        invariant
            0 < pos <= s@.len(),
            spec_decode_response(s@) == spec_env_members(
                s@,
                pos as int,
                match hdr {
                    Some(h) => Some(h@),
                    None => None,
                },
                match payload {
                    Some(p) => Some(p@),
                    None => None,
                },
                first,
            ),
        decreases s@.len() - pos,
    {
        let j = skip_ws(s, pos);
        if j >= s.len() {
            return RespScan::More;
        }
        if s[j] == 0x7d {
            if first {
                return env_finish(hdr, payload, j + 1);
            } else {
                return RespScan::Bad;
            }
        }
        let (key, e1) = match parse_string_bytes(s, j) {
            StrScan::Found(b, e) => (b, e),
            StrScan::More => {
                return RespScan::More;
            },
            StrScan::Bad => {
                return RespScan::Bad;
            },
        };
        proof {
            lemma_parse_string_bounds(s@, j as int);
        }
        let c = skip_ws(s, e1);
        if c >= s.len() {
            return RespScan::More;
        }
        if s[c] != 0x3a {
            return RespScan::Bad;
        }
        let v = skip_ws(s, c + 1);
        let kw_heos: [u8; 4] = [0x68, 0x65, 0x6f, 0x73];
        let kw_payload: [u8; 7] = [0x70, 0x61, 0x79, 0x6c, 0x6f, 0x61, 0x64];
        proof {
            assert(kw_heos@ =~= key_heos());
            assert(kw_payload@ =~= key_payload());
        }
        let end2: usize;
        if bytes_eq(key.as_slice(), kw_heos.as_slice()) {
            let (h, e2) = match parse_header(s, v) {
                HdrScan::Found(h, e) => (h, e),
                HdrScan::More => {
                    return RespScan::More;
                },
                HdrScan::Bad => {
                    return RespScan::Bad;
                },
            };
            if hdr.is_some() {
                return RespScan::Bad;
            }
            hdr = Some(h);
            end2 = e2;
        } else if bytes_eq(key.as_slice(), kw_payload.as_slice()) {
            let e2 = match skip_value(s, v) {
                Scan::Found(e) => e,
                Scan::More => {
                    return RespScan::More;
                },
                Scan::Bad => {
                    return RespScan::Bad;
                },
            };
            if payload.is_some() {
                return RespScan::Bad;
            }
            payload = Some(slice_to_vec(vstd::slice::slice_subrange(s, v, e2)));
            end2 = e2;
        } else {
            end2 = match skip_value(s, v) {
                Scan::Found(e) => e,
                Scan::More => {
                    return RespScan::More;
                },
                Scan::Bad => {
                    return RespScan::Bad;
                },
            };
        }
        let t = skip_ws(s, end2);
        if t >= s.len() {
            return RespScan::More;
        }
        if s[t] == 0x2c {
            pos = t + 1;
            first = false;
        } else if s[t] == 0x7d {
            return env_finish(hdr, payload, t + 1);
        } else {
            return RespScan::Bad;
        }
    }
}

fn env_finish(hdr: Option<Header>, payload: Option<Vec<u8>>, end: usize) -> (r: RespScan)
    ensures
        match r {
            RespScan::Found(resp, e) => spec_env_finish(
                match hdr {
                    Some(h) => Some(h@),
                    None => None,
                },
                match payload {
                    Some(p) => Some(p@),
                    None => None,
                },
                end as int,
            ) == (GResp::Found { resp: resp@, end: e as int }) && e == end,
            RespScan::More => false,
            RespScan::Bad => spec_env_finish(
                match hdr {
                    Some(h) => Some(h@),
                    None => None,
                },
                match payload {
                    Some(p) => Some(p@),
                    None => None,
                },
                end as int,
            ) is Bad,
        },
{
    let h = match hdr {
        Some(h) => h,
        None => {
            return RespScan::Bad;
        },
    };
    let p = match payload {
        Some(p) => p,
        None => Vec::new(),
    };
    proof {
        if p@.len() == 0 {
            assert(p@ =~= Seq::<u8>::empty());
        }
    }
    RespScan::Found(Response { heos: h, payload: p }, end)
}

// ---------------------------------------------------------------------------
// Player records
// ---------------------------------------------------------------------------

/// The fields of a player record collected so far.
pub ghost struct GPAcc {
    pub name: Option<Seq<u8>>,
    pub pid: Option<i64>,
    pub model: Option<Seq<u8>>,
    pub version: Option<Seq<u8>>,
    pub network: Option<Seq<u8>>,
    pub lineout: Option<u8>,
    pub serial: Option<Seq<u8>>,
}

pub open spec fn gp_acc_empty() -> GPAcc {
    GPAcc {
        name: None,
        pid: None,
        model: None,
        version: None,
        network: None,
        lineout: None,
        serial: None,
    }
}

/// Outcome of decoding one player object. A player list is decoded from a
/// complete payload span, so running out of input is malformed here.
pub ghost enum GPlayerR {
    Found { p: GPlayer, end: int },
    Bad,
}

/// Outcome of decoding one player member.
pub ghost enum GPStep {
    Next { acc: GPAcc, end: int },
    Bad,
}

/// Outcome of decoding a whole player list.
pub ghost enum GPlayers {
    Found { list: Seq<GPlayer> },
    Bad,
}

/// Decodes one player member's value at `v` under the given key: `pid` and
/// `lineout` are integers (`lineout` within a byte), the other five known
/// keys strings, anything else skipped untyped; no known key may repeat.
pub open spec fn spec_player_member(s: Seq<u8>, v: int, key: Seq<u8>, acc: GPAcc) -> GPStep {
    if key == key_name() {
        match spec_parse_string(s, v) {
            GStr::Found { bytes, end } => if acc.name is Some {
                GPStep::Bad
            } else {
                GPStep::Next { acc: GPAcc { name: Some(bytes), ..acc }, end }
            },
            _ => GPStep::Bad,
        }
    } else if key == key_model() {
        match spec_parse_string(s, v) {
            GStr::Found { bytes, end } => if acc.model is Some {
                GPStep::Bad
            } else {
                GPStep::Next { acc: GPAcc { model: Some(bytes), ..acc }, end }
            },
            _ => GPStep::Bad,
        }
    } else if key == key_version() {
        match spec_parse_string(s, v) {
            GStr::Found { bytes, end } => if acc.version is Some {
                GPStep::Bad
            } else {
                GPStep::Next { acc: GPAcc { version: Some(bytes), ..acc }, end }
            },
            _ => GPStep::Bad,
        }
    } else if key == key_network() {
        match spec_parse_string(s, v) {
            GStr::Found { bytes, end } => if acc.network is Some {
                GPStep::Bad
            } else {
                GPStep::Next { acc: GPAcc { network: Some(bytes), ..acc }, end }
            },
            _ => GPStep::Bad,
        }
    } else if key == key_serial() {
        match spec_parse_string(s, v) {
            GStr::Found { bytes, end } => if acc.serial is Some {
                GPStep::Bad
            } else {
                GPStep::Next { acc: GPAcc { serial: Some(bytes), ..acc }, end }
            },
            _ => GPStep::Bad,
        }
    } else if key == key_pid() {
        match spec_parse_int(s, v) {
            IntScan::Found(val, e) => if acc.pid is Some {
                GPStep::Bad
            } else {
                GPStep::Next { acc: GPAcc { pid: Some(val), ..acc }, end: e as int }
            },
            _ => GPStep::Bad,
        }
    } else if key == key_lineout() {
        match spec_parse_int(s, v) {
            IntScan::Found(val, e) => if acc.lineout is Some || !(0 <= val <= 255) {
                GPStep::Bad
            } else {
                GPStep::Next { acc: GPAcc { lineout: Some(val as u8), ..acc }, end: e as int }
            },
            _ => GPStep::Bad,
        }
    } else {
        match spec_skip_value(s, v) {
            Scan::Found(e) => GPStep::Next { acc, end: e as int },
            _ => GPStep::Bad,
        }
    }
}

/// Closes a player object at `end`: all seven fields must have appeared.
pub open spec fn spec_player_finish(acc: GPAcc, end: int) -> GPlayerR {
    match (acc.name, acc.pid, acc.model, acc.version, acc.network, acc.lineout, acc.serial) {
        (Some(n), Some(pid), Some(m), Some(ver), Some(nw), Some(lo), Some(sr)) => GPlayerR::Found {
            p: GPlayer {
                name: vstd::utf8::decode_utf8(n),
                pid,
                model: vstd::utf8::decode_utf8(m),
                version: vstd::utf8::decode_utf8(ver),
                network: vstd::utf8::decode_utf8(nw),
                lineout: lo,
                serial: vstd::utf8::decode_utf8(sr),
            },
            end,
        },
        _ => GPlayerR::Bad,
    }
}

/// Decodes the members of a player object from `i` to its closing brace.
pub open spec fn spec_player_members(s: Seq<u8>, i: int, acc: GPAcc, first: bool) -> GPlayerR
    decreases s.len() - i,
    via spec_player_members_dec
{
    if !(0 <= i <= s.len() <= usize::MAX) {
        GPlayerR::Bad
    } else {
        let j = spec_skip_ws(s, i);
        if j >= s.len() {
            GPlayerR::Bad
        } else if s[j] == 0x7d {
            if first {
                spec_player_finish(acc, j + 1)
            } else {
                GPlayerR::Bad
            }
        } else {
            match spec_parse_string(s, j) {
                GStr::More => GPlayerR::Bad,
                GStr::Bad => GPlayerR::Bad,
                GStr::Found { bytes: key, end: e1 } => {
                    let c = spec_skip_ws(s, e1);
                    if c >= s.len() {
                        GPlayerR::Bad
                    } else if s[c] != 0x3a {
                        GPlayerR::Bad
                    } else {
                        match spec_player_member(s, spec_skip_ws(s, c + 1), key, acc) {
                            GPStep::Bad => GPlayerR::Bad,
                            GPStep::Next { acc: acc2, end } => {
                                let t = spec_skip_ws(s, end);
                                if t >= s.len() {
                                    GPlayerR::Bad
                                } else if s[t] == 0x2c {
                                    spec_player_members(s, t + 1, acc2, false)
                                } else if s[t] == 0x7d {
                                    spec_player_finish(acc2, t + 1)
                                } else {
                                    GPlayerR::Bad
                                }
                            },
                        }
                    }
                }
            }
        }
    }
}

#[via_fn]
proof fn spec_player_members_dec(s: Seq<u8>, i: int, acc: GPAcc, first: bool) {
    if 0 <= i <= s.len() <= usize::MAX {
        lemma_skip_ws_bounds(s, i);
        let j = spec_skip_ws(s, i);
        if j < s.len() {
            lemma_parse_string_bounds(s, j);
            match spec_parse_string(s, j) {
                GStr::Found { bytes: key, end: e1 } => {
                    lemma_skip_ws_bounds(s, e1);
                    let c = spec_skip_ws(s, e1);
                    if c < s.len() {
                        lemma_skip_ws_bounds(s, c + 1);
                        let v = spec_skip_ws(s, c + 1);
                        lemma_parse_string_bounds(s, v);
                        lemma_parse_int_bounds(s, v);
                        lemma_skip_value_bounds(s, v);
                        match spec_player_member(s, v, key, acc) {
                            GPStep::Next { acc: acc2, end } => {
                                assert(v < end <= s.len());
                                lemma_skip_ws_bounds(s, end);
                            },
                            _ => {},
                        }
                    }
                },
                _ => {},
            }
        }
    }
}

pub proof fn lemma_player_members_bounds(s: Seq<u8>, i: int, acc: GPAcc, first: bool)
    ensures
        spec_player_members(s, i, acc, first) matches GPlayerR::Found { p, end } ==> i < end
            <= s.len(),
    decreases s.len() - i,
{
    if 0 <= i <= s.len() <= usize::MAX {
        lemma_skip_ws_bounds(s, i);
        let j = spec_skip_ws(s, i);
        if j < s.len() {
            lemma_parse_string_bounds(s, j);
            match spec_parse_string(s, j) {
                GStr::Found { bytes: key, end: e1 } => {
                    lemma_skip_ws_bounds(s, e1);
                    let c = spec_skip_ws(s, e1);
                    if c < s.len() {
                        lemma_skip_ws_bounds(s, c + 1);
                        let v = spec_skip_ws(s, c + 1);
                        lemma_parse_string_bounds(s, v);
                        lemma_parse_int_bounds(s, v);
                        lemma_skip_value_bounds(s, v);
                        match spec_player_member(s, v, key, acc) {
                            GPStep::Next { acc: acc2, end } => {
                                assert(v < end <= s.len());
                                lemma_skip_ws_bounds(s, end);
                                let t = spec_skip_ws(s, end);
                                if t < s.len() && s[t] == 0x2c {
                                    lemma_player_members_bounds(s, t + 1, acc2, false);
                                }
                            },
                            _ => {},
                        }
                    }
                },
                _ => {},
            }
        }
    }
}

/// Decodes a whole player object at `i`, braces included.
pub open spec fn spec_parse_player(s: Seq<u8>, i: int) -> GPlayerR {
    if i >= s.len() {
        GPlayerR::Bad
    } else if s[i] != 0x7b {
        GPlayerR::Bad
    } else {
        spec_player_members(s, i + 1, gp_acc_empty(), true)
    }
}

/// Decodes the elements of a player list from `i` to the closing bracket,
/// which must end the buffer: the list is decoded from exactly its span.
pub open spec fn spec_player_elems(s: Seq<u8>, i: int, list: Seq<GPlayer>, first: bool) -> GPlayers
    decreases s.len() - i,
    via spec_player_elems_dec
{
    if !(0 <= i <= s.len() <= usize::MAX) {
        GPlayers::Bad
    } else {
        let j = spec_skip_ws(s, i);
        if j >= s.len() {
            GPlayers::Bad
        } else if s[j] == 0x5d {
            if first && j + 1 == s.len() {
                GPlayers::Found { list }
            } else {
                GPlayers::Bad
            }
        } else {
            match spec_parse_player(s, j) {
                GPlayerR::Bad => GPlayers::Bad,
                GPlayerR::Found { p, end } => {
                    let t = spec_skip_ws(s, end);
                    if t >= s.len() {
                        GPlayers::Bad
                    } else if s[t] == 0x2c {
                        spec_player_elems(s, t + 1, list.push(p), false)
                    } else if s[t] == 0x5d {
                        if t + 1 == s.len() {
                            GPlayers::Found { list: list.push(p) }
                        } else {
                            GPlayers::Bad
                        }
                    } else {
                        GPlayers::Bad
                    }
                },
            }
        }
    }
}

#[via_fn]
proof fn spec_player_elems_dec(s: Seq<u8>, i: int, list: Seq<GPlayer>, first: bool) {
    if 0 <= i <= s.len() <= usize::MAX {
        lemma_skip_ws_bounds(s, i);
        let j = spec_skip_ws(s, i);
        if j < s.len() {
            lemma_player_members_bounds(s, j + 1, gp_acc_empty(), true);
            match spec_parse_player(s, j) {
                GPlayerR::Found { p, end } => {
                    assert(j < end <= s.len());
                    lemma_skip_ws_bounds(s, end);
                },
                _ => {},
            }
        }
    }
}

/// Decodes a whole payload span as a list of player records.
pub open spec fn spec_parse_players(s: Seq<u8>) -> GPlayers {
    if s.len() > usize::MAX {
        GPlayers::Bad
    } else {
        let j = spec_skip_ws(s, 0);
        if j >= s.len() {
            GPlayers::Bad
        } else if s[j] != 0x5b {
            GPlayers::Bad
        } else {
            spec_player_elems(s, j + 1, Seq::empty(), true)
        }
    }
}

/// The models of a sequence of player records.
pub open spec fn players_view(v: Seq<Player>) -> Seq<GPlayer> {
    Seq::new(v.len(), |k: int| v[k]@)
}

/// Outcome of the executable player-object decoder.
#[derive(Debug)]
pub enum PlayerScan {
    Found(Player, usize),
    Bad,
}

/// Outcome of the executable player-list decoder.
#[derive(Debug)]
pub enum PlayersScan {
    Found(Vec<Player>),
    Bad,
}

fn player_finish(
    name: Option<Vec<u8>>,
    pid: Option<i64>,
    model: Option<Vec<u8>>,
    version: Option<Vec<u8>>,
    network: Option<Vec<u8>>,
    lineout: Option<u8>,
    serial: Option<Vec<u8>>,
    end: usize,
) -> (r: PlayerScan)
    requires
        opt_bytes_utf8(name),
        opt_bytes_utf8(model),
        opt_bytes_utf8(version),
        opt_bytes_utf8(network),
        opt_bytes_utf8(serial),
    ensures
        match r {
            PlayerScan::Found(p, e) => spec_player_finish(
                GPAcc {
                    name: opt_bytes_view(name),
                    pid,
                    model: opt_bytes_view(model),
                    version: opt_bytes_view(version),
                    network: opt_bytes_view(network),
                    lineout,
                    serial: opt_bytes_view(serial),
                },
                end as int,
            ) == (GPlayerR::Found { p: p@, end: e as int }) && e == end,
            PlayerScan::Bad => spec_player_finish(
                GPAcc {
                    name: opt_bytes_view(name),
                    pid,
                    model: opt_bytes_view(model),
                    version: opt_bytes_view(version),
                    network: opt_bytes_view(network),
                    lineout,
                    serial: opt_bytes_view(serial),
                },
                end as int,
            ) is Bad,
        },
{
    let nb = match name {
        Some(b) => b,
        None => {
            return PlayerScan::Bad;
        },
    };
    let pidv = match pid {
        Some(v) => v,
        None => {
            return PlayerScan::Bad;
        },
    };
    let mb = match model {
        Some(b) => b,
        None => {
            return PlayerScan::Bad;
        },
    };
    let vb = match version {
        Some(b) => b,
        None => {
            return PlayerScan::Bad;
        },
    };
    let nwb = match network {
        Some(b) => b,
        None => {
            return PlayerScan::Bad;
        },
    };
    let lo = match lineout {
        Some(v) => v,
        None => {
            return PlayerScan::Bad;
        },
    };
    let sb = match serial {
        Some(b) => b,
        None => {
            return PlayerScan::Bad;
        },
    };
    PlayerScan::Found(
        Player {
            name: utf8_to_string(nb),
            pid: pidv,
            model: utf8_to_string(mb),
            version: utf8_to_string(vb),
            network: utf8_to_string(nwb),
            lineout: lo,
            serial: utf8_to_string(sb),
        },
        end,
    )
}

/// Decodes a whole player object at `i`.
fn parse_player(s: &[u8], i: usize) -> (r: PlayerScan)
    requires
        i <= s@.len(),
    ensures
        match r {
            PlayerScan::Found(p, end) => spec_parse_player(s@, i as int) == (GPlayerR::Found {
                p: p@,
                end: end as int,
            }) && i < end <= s@.len(),
            PlayerScan::Bad => spec_parse_player(s@, i as int) is Bad,
        },
{
    if i >= s.len() {
        return PlayerScan::Bad;
    }
    if s[i] != 0x7b {
        return PlayerScan::Bad;
    }
    let mut name: Option<Vec<u8>> = None;
    let mut pid: Option<i64> = None;
    let mut model: Option<Vec<u8>> = None;
    let mut version: Option<Vec<u8>> = None;
    let mut network: Option<Vec<u8>> = None;
    let mut lineout: Option<u8> = None;
    let mut serial: Option<Vec<u8>> = None;
    let mut pos = i + 1;
    let mut first = true;
    loop
        invariant
            i < pos <= s@.len(),
            spec_parse_player(s@, i as int) == spec_player_members(
                s@,
                pos as int,
                GPAcc {
                    name: opt_bytes_view(name),
                    pid,
                    model: opt_bytes_view(model),
                    version: opt_bytes_view(version),
                    network: opt_bytes_view(network),
                    lineout,
                    serial: opt_bytes_view(serial),
                },
                first,
            ),
            opt_bytes_utf8(name),
            opt_bytes_utf8(model),
            opt_bytes_utf8(version),
            opt_bytes_utf8(network),
            opt_bytes_utf8(serial),
        decreases s@.len() - pos,
    {
        let j = skip_ws(s, pos);
        if j >= s.len() {
            return PlayerScan::Bad;
        }
        if s[j] == 0x7d {
            if first {
                return player_finish(name, pid, model, version, network, lineout, serial, j + 1);
            } else {
                return PlayerScan::Bad;
            }
        }
        let (key, e1) = match parse_string_bytes(s, j) {
            StrScan::Found(b, e) => (b, e),
            StrScan::More => {
                return PlayerScan::Bad;
            },
            StrScan::Bad => {
                return PlayerScan::Bad;
            },
        };
        proof {
            lemma_parse_string_bounds(s@, j as int);
        }
        let c = skip_ws(s, e1);
        if c >= s.len() {
            return PlayerScan::Bad;
        }
        if s[c] != 0x3a {
            return PlayerScan::Bad;
        }
        let v = skip_ws(s, c + 1);
        let kw_name: [u8; 4] = [0x6e, 0x61, 0x6d, 0x65];
        let kw_pid: [u8; 3] = [0x70, 0x69, 0x64];
        let kw_model: [u8; 5] = [0x6d, 0x6f, 0x64, 0x65, 0x6c];
        let kw_version: [u8; 7] = [0x76, 0x65, 0x72, 0x73, 0x69, 0x6f, 0x6e];
        let kw_network: [u8; 7] = [0x6e, 0x65, 0x74, 0x77, 0x6f, 0x72, 0x6b];
        let kw_lineout: [u8; 7] = [0x6c, 0x69, 0x6e, 0x65, 0x6f, 0x75, 0x74];
        let kw_serial: [u8; 6] = [0x73, 0x65, 0x72, 0x69, 0x61, 0x6c];
        proof {
            assert(kw_name@ =~= key_name());
            assert(kw_pid@ =~= key_pid());
            assert(kw_model@ =~= key_model());
            assert(kw_version@ =~= key_version());
            assert(kw_network@ =~= key_network());
            assert(kw_lineout@ =~= key_lineout());
            assert(kw_serial@ =~= key_serial());
        }
        let end2: usize;
        if bytes_eq(key.as_slice(), kw_name.as_slice()) {
            let (val, e2) = match parse_string_bytes(s, v) {
                StrScan::Found(b, e) => (b, e),
                _ => {
                    return PlayerScan::Bad;
                },
            };
            if name.is_some() {
                return PlayerScan::Bad;
            }
            proof {
                lemma_parse_string_bounds(s@, v as int);
            }
            name = Some(val);
            end2 = e2;
        } else if bytes_eq(key.as_slice(), kw_model.as_slice()) {
            let (val, e2) = match parse_string_bytes(s, v) {
                StrScan::Found(b, e) => (b, e),
                _ => {
                    return PlayerScan::Bad;
                },
            };
            if model.is_some() {
                return PlayerScan::Bad;
            }
            proof {
                lemma_parse_string_bounds(s@, v as int);
            }
            model = Some(val);
            end2 = e2;
        } else if bytes_eq(key.as_slice(), kw_version.as_slice()) {
            let (val, e2) = match parse_string_bytes(s, v) {
                StrScan::Found(b, e) => (b, e),
                _ => {
                    return PlayerScan::Bad;
                },
            };
            if version.is_some() {
                return PlayerScan::Bad;
            }
            proof {
                lemma_parse_string_bounds(s@, v as int);
            }
            version = Some(val);
            end2 = e2;
        } else if bytes_eq(key.as_slice(), kw_network.as_slice()) {
            let (val, e2) = match parse_string_bytes(s, v) {
                StrScan::Found(b, e) => (b, e),
                _ => {
                    return PlayerScan::Bad;
                },
            };
            if network.is_some() {
                return PlayerScan::Bad;
            }
            proof {
                lemma_parse_string_bounds(s@, v as int);
            }
            network = Some(val);
            end2 = e2;
        } else if bytes_eq(key.as_slice(), kw_serial.as_slice()) {
            let (val, e2) = match parse_string_bytes(s, v) {
                StrScan::Found(b, e) => (b, e),
                _ => {
                    return PlayerScan::Bad;
                },
            };
            if serial.is_some() {
                return PlayerScan::Bad;
            }
            proof {
                lemma_parse_string_bounds(s@, v as int);
            }
            serial = Some(val);
            end2 = e2;
        } else if bytes_eq(key.as_slice(), kw_pid.as_slice()) {
            let (val, e2) = match parse_int(s, v) {
                IntScan::Found(n, e) => (n, e),
                _ => {
                    return PlayerScan::Bad;
                },
            };
            if pid.is_some() {
                return PlayerScan::Bad;
            }
            proof {
                lemma_parse_int_bounds(s@, v as int);
            }
            pid = Some(val);
            end2 = e2;
        } else if bytes_eq(key.as_slice(), kw_lineout.as_slice()) {
            let (val, e2) = match parse_int(s, v) {
                IntScan::Found(n, e) => (n, e),
                _ => {
                    return PlayerScan::Bad;
                },
            };
            if lineout.is_some() || !(0 <= val && val <= 255) {
                return PlayerScan::Bad;
            }
            proof {
                lemma_parse_int_bounds(s@, v as int);
            }
            lineout = Some(val as u8);
            end2 = e2;
        } else {
            end2 = match skip_value(s, v) {
                Scan::Found(e) => e,
                _ => {
                    return PlayerScan::Bad;
                },
            };
        }
        let t = skip_ws(s, end2);
        if t >= s.len() {
            return PlayerScan::Bad;
        }
        if s[t] == 0x2c {
            pos = t + 1;
            first = false;
        } else if s[t] == 0x7d {
            return player_finish(name, pid, model, version, network, lineout, serial, t + 1);
        } else {
            return PlayerScan::Bad;
        }
    }
}

/// Decodes a whole payload span as a list of player records.
pub fn parse_players(s: &[u8]) -> (r: PlayersScan)
    ensures
        match r {
            PlayersScan::Found(v) => spec_parse_players(s@) == (GPlayers::Found {
                list: players_view(v@),
            }),
            PlayersScan::Bad => spec_parse_players(s@) is Bad,
        },
{
    let j0 = skip_ws(s, 0);
    if j0 >= s.len() {
        return PlayersScan::Bad;
    }
    if s[j0] != 0x5b {
        return PlayersScan::Bad;
    }
    let mut out: Vec<Player> = Vec::new();
    let mut pos = j0 + 1;
    let mut first = true;
    proof {
        assert(players_view(out@) =~= Seq::<GPlayer>::empty());
    }
    loop
        invariant
            0 < pos <= s@.len(),
            spec_parse_players(s@) == spec_player_elems(s@, pos as int, players_view(out@), first),
        decreases s@.len() - pos,
    {
        let j = skip_ws(s, pos);
        if j >= s.len() {
            return PlayersScan::Bad;
        }
        if s[j] == 0x5d {
            if first && j + 1 == s.len() {
                return PlayersScan::Found(out);
            } else {
                return PlayersScan::Bad;
            }
        }
        let (p, end) = match parse_player(s, j) {
            PlayerScan::Found(p, e) => (p, e),
            PlayerScan::Bad => {
                return PlayersScan::Bad;
            },
        };
        let t = skip_ws(s, end);
        if t >= s.len() {
            return PlayersScan::Bad;
        }
        if s[t] == 0x2c {
            proof {
                assert(players_view(out@.push(p)) =~= players_view(out@).push(p@));
            }
            out.push(p);
            pos = t + 1;
            first = false;
        } else if s[t] == 0x5d {
            if t + 1 == s.len() {
                proof {
                    assert(players_view(out@.push(p)) =~= players_view(out@).push(p@));
                }
                out.push(p);
                return PlayersScan::Found(out);
            } else {
                return PlayersScan::Bad;
            }
        } else {
            return PlayersScan::Bad;
        }
    }
}

// ---------------------------------------------------------------------------
// Checked unwrapping of decoded envelopes
// ---------------------------------------------------------------------------

/// Unwrapping a players envelope: a `fail` result is a protocol error
/// carrying the device's message, whatever the payload holds; on success the
/// payload must decode as a player list.
pub open spec fn spec_players_from_response(r: GResponse) -> Result<Seq<GPlayer>, GError> {
    if r.heos.result == HeosResult::Fail {
        Err(GError::Protocol { message: r.heos.message })
    } else {
        match spec_parse_players(r.payload) {
            GPlayers::Found { list } => Ok(list),
            GPlayers::Bad => Err(GError::Decode),
        }
    }
}

/// Unwraps a players envelope, checking the discriminator before touching
/// the payload.
pub fn players_from_response(r: &Response) -> (out: Result<Vec<Player>, HeosError>)
    ensures
        match out {
            Ok(ps) => spec_players_from_response(r@) == Ok::<Seq<GPlayer>, GError>(
                players_view(ps@),
            ),
            Err(e) => spec_players_from_response(r@) == Err::<Seq<GPlayer>, GError>(e@),
        },
{
    match r.heos.result {
        HeosResult::Fail => Err(HeosError::Protocol { message: r.heos.message.clone() }),
        HeosResult::Success => match parse_players(r.payload.as_slice()) {
            PlayersScan::Found(v) => Ok(v),
            PlayersScan::Bad => Err(HeosError::Decode),
        },
    }
}

/// The first player's pid, in the device's own order; an empty list has
/// none.
pub open spec fn spec_first_player_id(list: Seq<GPlayer>) -> Result<i64, GError> {
    if list.len() == 0 {
        Err(GError::NotFound)
    } else {
        Ok(list[0].pid)
    }
}

/// Picks the first player's pid out of a player list.
pub fn first_player_id(players: &Vec<Player>) -> (out: Result<i64, HeosError>)
    ensures
        match out {
            Ok(p) => spec_first_player_id(players_view(players@)) == Ok::<i64, GError>(p),
            Err(e) => spec_first_player_id(players_view(players@)) == Err::<i64, GError>(e@),
        },
{
    if players.len() == 0 {
        Err(HeosError::NotFound)
    } else {
        Ok(players[0].pid)
    }
}

/// Checking an envelope that carries no typed payload: only the
/// discriminator decides.
pub open spec fn spec_check(r: GResponse) -> Result<(), GError> {
    if r.heos.result == HeosResult::Fail {
        Err(GError::Protocol { message: r.heos.message })
    } else {
        Ok(())
    }
}

/// Checks an envelope whose payload carries no information.
pub fn check_ok(r: &Response) -> (out: Result<(), HeosError>)
    ensures
        match out {
            Ok(u) => spec_check(r@) == Ok::<(), GError>(()),
            Err(e) => spec_check(r@) == Err::<(), GError>(e@),
        },
{
    match r.heos.result {
        HeosResult::Fail => Err(HeosError::Protocol { message: r.heos.message.clone() }),
        HeosResult::Success => Ok(()),
    }
}

} // verus!

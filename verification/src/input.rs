//! The closed set of input sources of the receiver and their protocol tokens.

use vstd::prelude::*;

verus! {

/// A physical or logical input source of the receiver.
#[derive(Copy, Clone, PartialEq, Eq, Structural, Debug)]
pub enum Input {
    CblSat,
    MediaPlayer,
    BluRay,
    Game,
    Aux1,
    Aux2,
    Phono,
    TvAudio,
    Tuner,
    Usb,
    Bluetooth,
    InternetRadio,
    Net,
}

/// The fixed uppercase token by which the text protocol names each input.
pub open spec fn spec_protocol_name(i: Input) -> Seq<char> {
    match i {
        Input::CblSat => "CBLSAT"@,
        Input::MediaPlayer => "MPLAY"@,
        Input::BluRay => "BD"@,
        Input::Game => "GAME"@,
        Input::Aux1 => "AUX1"@,
        Input::Aux2 => "AUX2"@,
        Input::Phono => "PHONO"@,
        Input::TvAudio => "TV"@,
        Input::Tuner => "TUNER"@,
        Input::Usb => "USB"@,
        Input::Bluetooth => "BT"@,
        Input::InternetRadio => "IRADIO"@,
        Input::Net => "NET"@,
    }
}

impl Input {
    /// Maps this input to its protocol token, totally and purely.
    pub fn to_protocol_name(self) -> (r: &'static str)
        ensures
            r@ == spec_protocol_name(self),
    {
        match self {
            Input::CblSat => "CBLSAT",
            Input::MediaPlayer => "MPLAY",
            Input::BluRay => "BD",
            Input::Game => "GAME",
            Input::Aux1 => "AUX1",
            Input::Aux2 => "AUX2",
            Input::Phono => "PHONO",
            Input::TvAudio => "TV",
            Input::Tuner => "TUNER",
            Input::Usb => "USB",
            Input::Bluetooth => "BT",
            Input::InternetRadio => "IRADIO",
            Input::Net => "NET",
        }
    }
}

/// Law: the protocol token determines the input. Two inputs that share a
/// token are the same input, so `to_protocol_name` is injective.
pub proof fn lemma_protocol_name_injective(a: Input, b: Input)
    ensures
        spec_protocol_name(a) == spec_protocol_name(b) ==> a == b,
{
    reveal_strlit("CBLSAT");
    reveal_strlit("MPLAY");
    reveal_strlit("BD");
    reveal_strlit("GAME");
    reveal_strlit("AUX1");
    reveal_strlit("AUX2");
    reveal_strlit("PHONO");
    reveal_strlit("TV");
    reveal_strlit("TUNER");
    reveal_strlit("USB");
    reveal_strlit("BT");
    reveal_strlit("IRADIO");
    reveal_strlit("NET");
    assert("CBLSAT"@.len() == 6);
    assert("MPLAY"@.len() == 5);
    assert("BD"@.len() == 2);
    assert("GAME"@.len() == 4);
    assert("AUX1"@.len() == 4);
    assert("AUX2"@.len() == 4);
    assert("PHONO"@.len() == 5);
    assert("TV"@.len() == 2);
    assert("TUNER"@.len() == 5);
    assert("USB"@.len() == 3);
    assert("BT"@.len() == 2);
    assert("IRADIO"@.len() == 6);
    assert("NET"@.len() == 3);
    assert("BD"@[0] == 'B' && "BD"@[1] == 'D');
    assert("TV"@[0] == 'T');
    assert("BT"@[0] == 'B' && "BT"@[1] == 'T');
    assert("GAME"@[0] == 'G');
    assert("AUX1"@[0] == 'A' && "AUX1"@[3] == '1');
    assert("AUX2"@[0] == 'A' && "AUX2"@[3] == '2');
    assert("MPLAY"@[0] == 'M');
    assert("PHONO"@[0] == 'P');
    assert("TUNER"@[0] == 'T');
    assert("USB"@[0] == 'U');
    assert("NET"@[0] == 'N');
    assert("CBLSAT"@[0] == 'C');
    assert("IRADIO"@[0] == 'I');
}

} // verus!

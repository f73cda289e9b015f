//! The local protocol spoken over the per-camera socket.

use crate::protocol::fs::same_text;
use std::str::FromStr;
use vstd::prelude::*;
use vstd::string::*;

verus! {

/// Pixel layouts that may appear on the wire.
#[derive(Clone, Copy, Debug, PartialEq, Eq, Structural)]
pub enum PixelFormat {
    RGB,
    BGR,
    RGBA,
    BGRA,
    YUYV,
    MJPEG,
}

/// What `str::to_uppercase` makes of a text.
pub uninterp spec fn uppercase(text: Seq<char>) -> Seq<char>;

/// `str::to_uppercase`: the upper-case equivalent of `text`, by the
/// Unicode tables of the standard library.
#[verifier::external_body]
fn to_uppercase(text: &str) -> (upper: String)
    ensures
        upper@ == uppercase(text@),
{
    text.to_uppercase()
}

impl PixelFormat {
    /// The four code bytes of a format.
    ///
    /// The codes of the RGB family are swapped relative to the variant
    /// names, following the byte order the camera stack uses.
    pub open spec fn fourcc_spec(self) -> Seq<u8> {
        match self {
            PixelFormat::RGB => seq![0x42u8, 0x47, 0x32, 0x34],
            PixelFormat::BGR => seq![0x52u8, 0x47, 0x32, 0x34],
            PixelFormat::RGBA => seq![0x42u8, 0x41, 0x32, 0x34],
            PixelFormat::BGRA => seq![0x52u8, 0x41, 0x32, 0x34],
            PixelFormat::YUYV => seq![0x59u8, 0x55, 0x59, 0x56],
            PixelFormat::MJPEG => seq![0x4du8, 0x4a, 0x50, 0x47],
        }
    }

    /// The code of a format as text.
    pub open spec fn fourcc_text(self) -> Seq<char> {
        match self {
            PixelFormat::RGB => seq!['B', 'G', '2', '4'],
            PixelFormat::BGR => seq!['R', 'G', '2', '4'],
            PixelFormat::RGBA => seq!['B', 'A', '2', '4'],
            PixelFormat::BGRA => seq!['R', 'A', '2', '4'],
            PixelFormat::YUYV => seq!['Y', 'U', 'Y', 'V'],
            PixelFormat::MJPEG => seq!['M', 'J', 'P', 'G'],
        }
    }

    /// The format that a code stands for: the one whose code it is. The
    /// codes of the RGB family are swapped against their letters, as the
    /// codes themselves are.
    pub open spec fn named(code: Seq<char>) -> Option<PixelFormat> {
        if code == seq!['B', 'G', '2', '4'] {
            Some(PixelFormat::RGB)
        } else if code == seq!['R', 'G', '2', '4'] {
            Some(PixelFormat::BGR)
        } else if code == seq!['B', 'A', '2', '4'] {
            Some(PixelFormat::RGBA)
        } else if code == seq!['R', 'A', '2', '4'] {
            Some(PixelFormat::BGRA)
        } else if code == seq!['Y', 'U', 'Y', 'V'] {
            Some(PixelFormat::YUYV)
        } else if code == seq!['M', 'J', 'P', 'G'] {
            Some(PixelFormat::MJPEG)
        } else {
            None
        }
    }

    /// What is said of a code that names no format.
    pub open spec fn unknown_code(code: Seq<char>) -> Seq<char> {
        "not a recognized fourcc code ("@ + code + ")"@
    }

    /// Returns the FourCC code of this format.
    pub fn fourcc(&self) -> (code: [u8; 4])
        ensures
            code@ == self.fourcc_spec(),
            forall|i: int| 0 <= i < 4 ==> code@[i] as char == self.fourcc_text()[i],
    {
        let code: [u8; 4] = match self {
            PixelFormat::RGB => [0x42, 0x47, 0x32, 0x34],
            PixelFormat::BGR => [0x52, 0x47, 0x32, 0x34],
            PixelFormat::RGBA => [0x42, 0x41, 0x32, 0x34],
            PixelFormat::BGRA => [0x52, 0x41, 0x32, 0x34],
            PixelFormat::YUYV => [0x59, 0x55, 0x59, 0x56],
            PixelFormat::MJPEG => [0x4d, 0x4a, 0x50, 0x47],
        };
        assert(code@ =~= self.fourcc_spec());
        code
    }

    /// The format that the upper-case code `code` stands for.
    pub fn from_code(code: &str) -> (format: Result<PixelFormat, String>)
        ensures
            match format {
                Ok(f) => Self::named(code@) == Some(f),
                Err(text) => Self::named(code@) is None && text@ == Self::unknown_code(code@),
            },
    {
        proof {
            reveal_strlit("RG24");
            reveal_strlit("BG24");
            reveal_strlit("RA24");
            reveal_strlit("BA24");
            reveal_strlit("YUYV");
            reveal_strlit("MJPG");
            assert("RG24"@ =~= seq!['R', 'G', '2', '4']);
            assert("BG24"@ =~= seq!['B', 'G', '2', '4']);
            assert("RA24"@ =~= seq!['R', 'A', '2', '4']);
            assert("BA24"@ =~= seq!['B', 'A', '2', '4']);
            assert("YUYV"@ =~= seq!['Y', 'U', 'Y', 'V']);
            assert("MJPG"@ =~= seq!['M', 'J', 'P', 'G']);
        }
        if same_text(code, "BG24") {
            Ok(PixelFormat::RGB)
        } else if same_text(code, "RG24") {
            Ok(PixelFormat::BGR)
        } else if same_text(code, "BA24") {
            Ok(PixelFormat::RGBA)
        } else if same_text(code, "RA24") {
            Ok(PixelFormat::BGRA)
        } else if same_text(code, "YUYV") {
            Ok(PixelFormat::YUYV)
        } else if same_text(code, "MJPG") {
            Ok(PixelFormat::MJPEG)
        } else {
            let mut text = "not a recognized fourcc code (".to_owned();
            text.append(code);
            text.append(")");
            Err(text)
        }
    }

    /// The format that `code` stands for, whatever the case of its letters.
    pub fn parse(code: &str) -> (format: Result<PixelFormat, String>)
        ensures
            match format {
                Ok(f) => Self::named(uppercase(code@)) == Some(f),
                Err(text) => Self::named(uppercase(code@)) is None && text@ == Self::unknown_code(
                    uppercase(code@),
                ),
            },
    {
        let upper = to_uppercase(code);
        Self::from_code(upper.as_str())
    }
}

impl FromStr for PixelFormat {
    type Err = String;

    /// The format that `s` stands for, whatever the case of its letters.
    fn from_str(s: &str) -> (format: Result<PixelFormat, String>)
        ensures
            match format {
                Ok(f) => PixelFormat::named(uppercase(s@)) == Some(f),
                Err(text) => PixelFormat::named(uppercase(s@)) is None && text@
                    == PixelFormat::unknown_code(uppercase(s@)),
            },
    {
        PixelFormat::parse(s)
    }
}

/// Reading a format's own code gives the format back, for every format.
pub proof fn lemma_code_round_trip(format: PixelFormat)
    ensures
        PixelFormat::named(format.fourcc_text()) == Some(format),
{
    lemma_codes_differ();
}

/// The six codes are six different texts.
proof fn lemma_codes_differ()
    ensures
        forall|a: PixelFormat, b: PixelFormat|
            #[trigger] a.fourcc_text() == #[trigger] b.fourcc_text() ==> a == b,
{
    assert forall|a: PixelFormat, b: PixelFormat|
        #[trigger] a.fourcc_text() == #[trigger] b.fourcc_text() implies a == b by {
        assert(a.fourcc_text()[0] == b.fourcc_text()[0]);
        assert(a.fourcc_text()[1] == b.fourcc_text()[1]);
    }
}

/// A frame as it travels from the capture server to a client. `data` holds
/// as many bytes as the camera filled, which for compressed formats is less
/// than the extents suggest.
#[derive(Clone, Debug)]
pub struct Frame {
    pub format: PixelFormat,
    pub width: u32,
    pub height: u32,
    pub data: Vec<u8>,
}

/// The one-byte commands a client sends.
#[derive(Clone, Copy, Debug, PartialEq, Eq, Structural)]
pub enum ClientMessage {
    Start,
    Stop,
    Disconnect,
    Status,
}

impl ClientMessage {
    /// The opcode of a command.
    pub open spec fn id_spec(self) -> u8 {
        match self {
            ClientMessage::Start => 0,
            ClientMessage::Stop => 1,
            ClientMessage::Disconnect => 2,
            ClientMessage::Status => 3,
        }
    }

    /// The command that an opcode stands for.
    pub open spec fn from_id_spec(id: u8) -> Option<ClientMessage> {
        if id == 0 {
            Some(ClientMessage::Start)
        } else if id == 1 {
            Some(ClientMessage::Stop)
        } else if id == 2 {
            Some(ClientMessage::Disconnect)
        } else if id == 3 {
            Some(ClientMessage::Status)
        } else {
            None
        }
    }

    /// Returns the opcode of this command.
    pub fn id(&self) -> (id: u8)
        ensures
            id == self.id_spec(),
            Self::from_id_spec(id) == Some(*self),
    {
        match self {
            ClientMessage::Start => 0,
            ClientMessage::Stop => 1,
            ClientMessage::Disconnect => 2,
            ClientMessage::Status => 3,
        }
    }

    /// Returns the command that `id` stands for, if it stands for one.
    pub fn from_id(id: u8) -> (message: Option<ClientMessage>)
        ensures
            message == Self::from_id_spec(id),
            message is Some <==> id <= 3,
            message is Some ==> message->0.id_spec() == id,
    {
        match id {
            0 => Some(ClientMessage::Start),
            1 => Some(ClientMessage::Stop),
            2 => Some(ClientMessage::Disconnect),
            3 => Some(ClientMessage::Status),
            _ => None,
        }
    }
}

/// The answer to a `Status` command.
#[derive(Clone, Debug)]
pub struct Status {
    pub enabled: bool,
    pub healthy: bool,
    pub format: PixelFormat,
    pub width: u32,
    pub height: u32,
}

/// The cameras that a host has.
#[derive(Clone, Debug)]
pub struct CameraList {
    pub cameras: Vec<CameraListing>,
}

/// One camera: its model name, its id, and whether a server holds it.
#[derive(Clone, Debug)]
pub struct CameraListing {
    pub name: String,
    pub id: String,
    pub acquired: bool,
}

impl CameraListing {
    /// The line that lists this camera.
    pub open spec fn label_spec(&self) -> Seq<char> {
        self.name@ + " ("@ + self.id@ + ")"@ + if self.acquired {
            " (acquired)"@
        } else {
            Seq::<char>::empty()
        }
    }

    /// The line that lists this camera: model, id in brackets, and a note
    /// where the camera is held.
    pub fn label(&self) -> (line: String)
        ensures
            line@ == self.label_spec(),
    {
        let mut line = self.name.clone();
        line.append(" (");
        line.append(self.id.as_str());
        line.append(")");
        if self.acquired {
            line.append(" (acquired)");
        }
        assert(line@ =~= self.label_spec());
        line
    }
}

} // verus!

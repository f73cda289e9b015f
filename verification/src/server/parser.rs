//! What the command line of the capture server asks for.

use crate::protocol::camera::PixelFormat;
use vstd::prelude::*;
use vstd::string::*;

verus! {

/// The commands of the capture server.
#[derive(Clone, Debug)]
pub enum Command {
    /// List the cameras of the host.
    List(List),
    /// Acquire a camera and serve its frames.
    Launch(Launch),
    /// List, create or remove aliases.
    Alias(Alias),
    /// Resolve a name into a camera id.
    Resolve(Resolve),
    /// Tell whether a camera is free.
    Check(Check),
    /// End the server that holds a camera.
    Stop(Stop),
}

/// The codes by which a pixel format is asked for.
#[derive(Clone, Copy, Debug, PartialEq, Eq, Structural)]
pub enum FourCC {
    RG24,
    BG24,
    RA24,
    BA24,
    YUYV,
    MJPG,
}

impl FourCC {
    /// The code as text.
    pub open spec fn name_spec(self) -> Seq<char> {
        match self {
            FourCC::RG24 => seq!['R', 'G', '2', '4'],
            FourCC::BG24 => seq!['B', 'G', '2', '4'],
            FourCC::RA24 => seq!['R', 'A', '2', '4'],
            FourCC::BA24 => seq!['B', 'A', '2', '4'],
            FourCC::YUYV => seq!['Y', 'U', 'Y', 'V'],
            FourCC::MJPG => seq!['M', 'J', 'P', 'G'],
        }
    }

    /// The format that the code asks for on the command line: the one its
    /// letters name.
    pub open spec fn format_spec(self) -> PixelFormat {
        match self {
            FourCC::RG24 => PixelFormat::RGB,
            FourCC::BG24 => PixelFormat::BGR,
            FourCC::RA24 => PixelFormat::RGBA,
            FourCC::BA24 => PixelFormat::BGRA,
            FourCC::YUYV => PixelFormat::YUYV,
            FourCC::MJPG => PixelFormat::MJPEG,
        }
    }

    /// Returns the code as text.
    pub fn name(&self) -> (text: String)
        ensures
            text@ == self.name_spec(),
    {
        proof {
            reveal_strlit("RG24");
            reveal_strlit("BG24");
            reveal_strlit("RA24");
            reveal_strlit("BA24");
            reveal_strlit("YUYV");
            reveal_strlit("MJPG");
        }
        let text = match self {
            FourCC::RG24 => "RG24",
            FourCC::BG24 => "BG24",
            FourCC::RA24 => "RA24",
            FourCC::BA24 => "BA24",
            FourCC::YUYV => "YUYV",
            FourCC::MJPG => "MJPG",
        };
        assert(text@ =~= self.name_spec());
        text.to_owned()
    }

    /// The code that asks for `format` on the command line.
    pub open spec fn asking_for(format: PixelFormat) -> FourCC {
        match format {
            PixelFormat::RGB => FourCC::RG24,
            PixelFormat::BGR => FourCC::BG24,
            PixelFormat::RGBA => FourCC::RA24,
            PixelFormat::BGRA => FourCC::BA24,
            PixelFormat::YUYV => FourCC::YUYV,
            PixelFormat::MJPEG => FourCC::MJPG,
        }
    }

    /// Returns the code that asks for `format` on the command line.
    pub fn for_format(format: PixelFormat) -> (code: FourCC)
        ensures
            code == Self::asking_for(format),
            code.format_spec() == format,
    {
        match format {
            PixelFormat::RGB => FourCC::RG24,
            PixelFormat::BGR => FourCC::BG24,
            PixelFormat::RGBA => FourCC::RA24,
            PixelFormat::BGRA => FourCC::BA24,
            PixelFormat::YUYV => FourCC::YUYV,
            PixelFormat::MJPEG => FourCC::MJPG,
        }
    }

    /// Returns the format that the code asks for.
    pub fn format(&self) -> (format: PixelFormat)
        ensures
            format == self.format_spec(),
    {
        match self {
            FourCC::RG24 => PixelFormat::RGB,
            FourCC::BG24 => PixelFormat::BGR,
            FourCC::RA24 => PixelFormat::RGBA,
            FourCC::BA24 => PixelFormat::BGRA,
            FourCC::YUYV => PixelFormat::YUYV,
            FourCC::MJPG => PixelFormat::MJPEG,
        }
    }
}

/// `list`: the cameras of the host, for people or, piped, for programs.
#[derive(Clone, Copy, Debug)]
pub struct List {
    pub piped: bool,
}

/// `launch`: acquire the camera `name` and serve its frames.
#[derive(Clone, Debug)]
pub struct Launch {
    /// The name, id or alias of the camera.
    pub name: String,
    /// The pixel format of the frames.
    pub format: FourCC,
    /// The number of buffers the camera fills in turn.
    pub buffer_count: u32,
    /// The width asked for, in pixels. The camera may not have it.
    pub width: Option<u32>,
    /// The height asked for, in pixels. The camera may not have it.
    pub height: Option<u32>,
    /// End quietly where the camera is already acquired.
    pub allow_fail: bool,
}

/// `alias`: list, remove or create aliases.
#[derive(Clone, Debug)]
pub enum Alias {
    List,
    Remove(RemoveAlias),
    Create(CreateAlias),
}

/// `alias remove`.
#[derive(Clone, Debug)]
pub struct RemoveAlias {
    /// The alias to remove.
    pub alias: String,
}

/// `alias create`.
#[derive(Clone, Debug)]
pub struct CreateAlias {
    /// Rewrite the alias where it exists.
    pub update: bool,
    /// The alias to create.
    pub alias: String,
    /// The name or id that the alias stands for.
    pub name: String,
}

/// `resolve`: the id of the camera that `name` names.
#[derive(Clone, Debug)]
pub struct Resolve {
    pub name: String,
}

/// `check`: whether the camera `name` is free.
#[derive(Clone, Debug)]
pub struct Check {
    pub name: String,
    /// Say nothing, and answer by the exit code alone.
    pub quiet: bool,
}

/// `stop`: end the server that holds the camera `name`.
#[derive(Clone, Debug)]
pub struct Stop {
    pub name: String,
}

/// The code that asks for a format asks for that format and no other, and
/// every code asks for the format it is the code to ask for.
pub proof fn lemma_codes_ask_for_formats(format: PixelFormat, code: FourCC)
    ensures
        FourCC::asking_for(format).format_spec() == format,
        FourCC::asking_for(code.format_spec()) == code,
{
}

} // verus!

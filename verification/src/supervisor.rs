//! Bringing a capture server up for a client: what to run, what to make of
//! what it says, and when to give up.
//!
//! A client resolves the camera's name, asks whether the camera is free,
//! launches a server where it is, connects, and asks for the status. The
//! functions here decide each step; running programs and talking to
//! sockets is left to the caller.

use crate::camera::{CameraConfig, CameraConfigView};
use crate::error::{Error, Result};
use crate::protocol::camera::{PixelFormat, Status};
use crate::server::parser::FourCC;
use vstd::prelude::*;
use vstd::string::*;

verus! {

/// The decimal digit `d`.
pub open spec fn digit(d: int) -> char {
    if d == 0 {
        '0'
    } else if d == 1 {
        '1'
    } else if d == 2 {
        '2'
    } else if d == 3 {
        '3'
    } else if d == 4 {
        '4'
    } else if d == 5 {
        '5'
    } else if d == 6 {
        '6'
    } else if d == 7 {
        '7'
    } else if d == 8 {
        '8'
    } else {
        '9'
    }
}

/// The decimal digits of `n`, without leading zeros.
pub open spec fn decimal_text(n: nat) -> Seq<char>
    decreases n,
{
    if n < 10 {
        seq![digit(n as int)]
    } else {
        decimal_text(n / 10).push(digit((n % 10) as int))
    }
}

/// Writes `n` in decimal digits.
pub fn decimal(n: u32) -> (text: String)
    ensures
        text@ == decimal_text(n as nat),
    decreases n,
{
    proof {
        reveal_strlit("0");
        reveal_strlit("1");
        reveal_strlit("2");
        reveal_strlit("3");
        reveal_strlit("4");
        reveal_strlit("5");
        reveal_strlit("6");
        reveal_strlit("7");
        reveal_strlit("8");
        reveal_strlit("9");
    }
    let last = match n % 10 {
        0 => "0",
        1 => "1",
        2 => "2",
        3 => "3",
        4 => "4",
        5 => "5",
        6 => "6",
        7 => "7",
        8 => "8",
        _ => "9",
    };
    assert(last@ =~= seq![digit((n % 10) as int)]);
    if n < 10 {
        last.to_owned()
    } else {
        let mut text = decimal(n / 10);
        text.append(last);
        assert(text@ =~= decimal_text(n as nat));
        text
    }
}

/// What `str::trim` leaves of a text.
pub uninterp spec fn trimmed(text: Seq<char>) -> Seq<char>;

/// `str::trim`: `text` without the white space at its beginning and end.
#[verifier::external_body]
fn trim(text: &str) -> (rest: String)
    ensures
        rest@ == trimmed(text@),
{
    text.trim().to_owned()
}

/// The program that is run where the configuration names none.
pub open spec fn default_server_exe() -> Seq<char> {
    "vistream-camera-server"@
}

/// The server program to run.
pub fn server_exe(cfg: &CameraConfig) -> (exe: String)
    ensures
        exe@ == (match cfg@.server_exe {
            Some(name) => name,
            None => default_server_exe(),
        }),
{
    match cfg.requested_server_exe() {
        Some(name) => name.clone(),
        None => "vistream-camera-server".to_owned(),
    }
}

/// The texts that a list of arguments holds.
pub open spec fn args_text(args: Seq<String>) -> Seq<Seq<char>> {
    args.map_values(|s: String| s@)
}

/// The arguments that ask the server to resolve `name`.
pub fn resolve_args(name: &str) -> (args: Vec<String>)
    ensures
        args_text(args@) == seq!["resolve"@, name@],
{
    let mut args: Vec<String> = Vec::new();
    args.push("resolve".to_owned());
    args.push(name.to_owned());
    assert(args_text(args@) =~= seq!["resolve"@, name@]);
    args
}

/// The arguments that ask the server, quietly, whether the camera `id` is
/// free.
pub fn check_args(id: &str) -> (args: Vec<String>)
    ensures
        args_text(args@) == seq!["check"@, id@, "--quiet"@],
{
    let mut args: Vec<String> = Vec::new();
    args.push("check".to_owned());
    args.push(id.to_owned());
    args.push("--quiet".to_owned());
    assert(args_text(args@) =~= seq!["check"@, id@, "--quiet"@]);
    args
}

/// An option with its number, where the number was asked for.
pub open spec fn numbered(flag: Seq<char>, n: Option<u32>) -> Seq<Seq<char>> {
    match n {
        Some(n) => seq![flag, decimal_text(n as nat)],
        None => Seq::empty(),
    }
}

/// The arguments that launch a server for the camera `id`: the format by
/// the code that asks for it on the command line, then what the
/// configuration asks for, then the camera.
pub open spec fn launch_args_spec(cfg: CameraConfigView, format: PixelFormat, id: Seq<char>) -> Seq<
    Seq<char>,
> {
    seq!["launch"@, "--format"@, FourCC::asking_for(format).name_spec()] + numbered(
        "--buffer-count"@,
        cfg.buffer_count,
    ) + numbered("--width"@, cfg.width) + numbered("--height"@, cfg.height) + seq![id]
}

/// Adds an option with its number to `args`, where the number was asked
/// for.
fn push_numbered(args: &mut Vec<String>, flag: &str, n: Option<u32>)
    ensures
        args_text(final(args)@) == args_text(old(args)@) + numbered(flag@, n),
{
    let ghost before = args_text(args@);
    match n {
        Some(n) => {
            args.push(flag.to_owned());
            args.push(decimal(n));
            assert(args_text(args@) =~= before + numbered(flag@, Some(n)));
        },
        None => {
            assert(args_text(args@) =~= before + numbered(flag@, n));
        },
    }
}

/// The arguments that launch a server for the camera `id`.
pub fn launch_args(cfg: &CameraConfig, format: PixelFormat, id: &str) -> (args: Vec<String>)
    ensures
        args_text(args@) == launch_args_spec(cfg@, format, id@),
{
    let mut args: Vec<String> = Vec::new();
    args.push("launch".to_owned());
    args.push("--format".to_owned());
    args.push(FourCC::for_format(format).name());
    assert(args_text(args@) =~= seq![
        "launch"@,
        "--format"@,
        FourCC::asking_for(format).name_spec(),
    ]);
    push_numbered(&mut args, "--buffer-count", cfg.requested_buffer_count());
    push_numbered(&mut args, "--width", cfg.requested_width());
    push_numbered(&mut args, "--height", cfg.requested_height());
    let ghost before = args_text(args@);
    args.push(id.to_owned());
    assert(args_text(args@) =~= before + seq![id@]);
    args
}

/// Reads the camera id out of what `resolve` printed. Where the server
/// failed, or printed what is no text, the result is what it said on its
/// error stream, as a `Server` error.
pub fn resolved_id(success: bool, printed: Option<String>, complaint: String) -> (id: Result<
    String,
>)
    ensures
        match id {
            Ok(id) => success && printed is Some && id@ == trimmed(printed->0@),
            Err(e) => !(success && printed is Some) && e == Error::Server(complaint),
        },
{
    if !success {
        return Err(Error::Server(complaint));
    }
    match printed {
        Some(text) => Ok(trim(text.as_str())),
        None => Err(Error::Server(complaint)),
    }
}

/// What to do after `check`: launch a server, with these arguments, where
/// the camera is free, and nothing where a server holds it already.
pub fn after_check(cfg: &CameraConfig, format: PixelFormat, id: &str, free: bool) -> (launch:
    Option<Vec<String>>)
    ensures
        launch is Some <==> free,
        launch matches Some(args) ==> args_text(args@) == launch_args_spec(cfg@, format, id@),
{
    if free {
        Some(launch_args(cfg, format, id))
    } else {
        None
    }
}

/// Decides, after an attempt to connect has failed `elapsed` nanoseconds
/// into the connecting, whether to try again. Fails with `Timeout` once
/// the time allowed has passed; with no limit set the attempts go on.
pub fn after_connect_failure(cfg: &CameraConfig, elapsed: u128) -> (again: Result<()>)
    ensures
        again is Ok <==> (match cfg@.conn_timeout {
            Some(limit) => elapsed < limit,
            None => true,
        }),
        again matches Err(e) ==> e is Timeout,
{
    match cfg.requested_conn_timeout() {
        Some(limit) => if elapsed >= limit {
            Err(Error::Timeout)
        } else {
            Ok(())
        },
        None => Ok(()),
    }
}

/// Reads the extents of the stream out of the server's status. Fails with
/// `IncompatibleFormat` where the server delivers another format than
/// `format`; a server that this client launched is then to be killed and
/// reaped.
pub fn after_status(status: &Status, format: PixelFormat) -> (extents: Result<(usize, usize)>)
    ensures
        extents is Ok <==> status.format == format,
        extents matches Ok(wh) ==> wh == (status.width as usize, status.height as usize),
        extents matches Err(e) ==> e is IncompatibleFormat,
{
    if status.format != format {
        return Err(Error::IncompatibleFormat);
    }
    Ok((status.width as usize, status.height as usize))
}

/// A server that is launched with these arguments delivers the format that
/// was asked for: the code after `--format` is the one that the command
/// line reads as `format`.
pub proof fn lemma_launch_asks_for_the_format(cfg: CameraConfigView, format: PixelFormat, id: Seq<
    char,
>)
    ensures
        launch_args_spec(cfg, format, id)[1] == "--format"@,
        exists|code: FourCC|
            launch_args_spec(cfg, format, id)[2] == code.name_spec() && code.format_spec()
                == format,
{
    assert(launch_args_spec(cfg, format, id)[2] == FourCC::asking_for(format).name_spec());
    assert(FourCC::asking_for(format).format_spec() == format);
}

} // verus!

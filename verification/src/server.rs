//! The decisions of the capture server: which camera a name means, whether
//! it may be acquired, which frame size comes closest to the one asked
//! for, and with which code the server ends.

pub mod parser;

use crate::protocol::camera::{CameraListing, PixelFormat};
use crate::protocol::fs::{
    contains, has_key, inserted, lookup, removed, resolve_alias, resolved, same_text, texts,
    Entry, Table,
};
use crate::server::parser::{CreateAlias, FourCC, RemoveAlias};
use vstd::prelude::*;
use vstd::string::*;

verus! {

/// Why the server ends without success.
#[derive(Clone, Copy, Debug, PartialEq, Eq, Structural)]
pub enum Failure {
    /// A registry file could not be read or written.
    Registry,
    /// The registry's directory could not be made.
    HomeUnusable,
    /// The file of the aliases could not be read or written.
    AliasFile,
    /// The camera manager could not be started.
    CameraManager,
    /// An alias exists already, is unknown, or is not well formed.
    AliasConflict,
    /// The camera could not be acquired.
    CameraAcquire,
    /// The socket could not be opened.
    Socket,
    /// The camera could not be configured, or a request was refused.
    Configure,
    /// The camera can only be configured for another pixel format than the
    /// one asked for.
    IncompatibleFormat,
    /// The camera is disconnected.
    CameraDisconnected,
    /// The handler for signals could not be installed, or the camera not
    /// be freed.
    SignalHandler,
    /// A record could not be written out.
    Serialization,
    /// No camera has the name.
    NameUnresolved,
    /// More than one camera has the name.
    NameAmbiguous,
    /// The server that holds the camera could not be stopped.
    StopFailed,
    /// The camera is acquired already.
    AlreadyAcquired,
}

impl Failure {
    /// The exit code of a failure.
    pub open spec fn code_spec(self) -> u8 {
        match self {
            Failure::Registry => 1,
            Failure::HomeUnusable => 2,
            Failure::AliasFile => 3,
            Failure::CameraManager => 4,
            Failure::AliasConflict => 5,
            Failure::CameraAcquire => 6,
            Failure::Socket => 7,
            Failure::Configure => 8,
            Failure::IncompatibleFormat => 8,
            Failure::CameraDisconnected => 9,
            Failure::SignalHandler => 10,
            Failure::Serialization => 11,
            Failure::NameUnresolved => 12,
            Failure::NameAmbiguous => 12,
            Failure::StopFailed => 20,
            Failure::AlreadyAcquired => 255,
        }
    }

    /// Returns the code with which the server ends.
    pub fn code(&self) -> (code: u8)
        ensures
            code == self.code_spec(),
            code != 0,
    {
        match self {
            Failure::Registry => 1,
            Failure::HomeUnusable => 2,
            Failure::AliasFile => 3,
            Failure::CameraManager => 4,
            Failure::AliasConflict => 5,
            Failure::CameraAcquire => 6,
            Failure::Socket => 7,
            Failure::Configure => 8,
            Failure::IncompatibleFormat => 8,
            Failure::CameraDisconnected => 9,
            Failure::SignalHandler => 10,
            Failure::Serialization => 11,
            Failure::NameUnresolved => 12,
            Failure::NameAmbiguous => 12,
            Failure::StopFailed => 20,
            Failure::AlreadyAcquired => 255,
        }
    }
}

/// Tells whether `text` holds a `=`.
fn holds_equals_sign(text: &str) -> (found: bool)
    ensures
        found == text@.contains('='),
{
    let n = text.unicode_len();
    let mut i: usize = 0;
    while i < n
        invariant
            i <= n,
            n == text@.len(),
            forall|k: int| 0 <= k < i ==> text@[k] != '=',
        decreases n - i,
    {
        if text.get_char(i) == '=' {
            return true;
        }
        i += 1;
    }
    false
}

/// Whether an alias may be created: neither it nor what it stands for
/// holds a `=`, and it is new unless it is to be rewritten.
pub open spec fn may_create(aliases: Seq<Entry>, update: bool, alias: Seq<char>, name: Seq<char>)
    -> bool {
    &&& !alias.contains('=')
    &&& !name.contains('=')
    &&& (update || !has_key(aliases, alias))
}

/// Creates the alias that `alias` describes. Fails with `AliasConflict`,
/// leaving the aliases as they were, where it may not be created.
pub fn create_alias(aliases: &mut Table, alias: CreateAlias) -> (done: Result<(), Failure>)
    requires
        old(aliases).wf(),
    ensures
        final(aliases).wf(),
        done is Ok <==> may_create(old(aliases)@, alias.update, alias.alias@, alias.name@),
        done is Ok ==> final(aliases)@ == inserted(old(aliases)@, alias.alias@, alias.name@)
            && resolved(final(aliases)@, alias.alias@) == alias.name@,
        done is Err ==> done == Err::<(), Failure>(Failure::AliasConflict) && final(aliases)@
            == old(aliases)@,
{
    if holds_equals_sign(alias.name.as_str()) || holds_equals_sign(alias.alias.as_str()) {
        return Err(Failure::AliasConflict);
    }
    if aliases.contains_key(alias.alias.as_str()) && !alias.update {
        return Err(Failure::AliasConflict);
    }
    let _ = aliases.insert(alias.alias, alias.name);
    Ok(())
}

/// Removes the alias that `alias` names. Fails with `AliasConflict` where
/// there is no such alias.
pub fn remove_alias(aliases: &mut Table, alias: RemoveAlias) -> (done: Result<(), Failure>)
    requires
        old(aliases).wf(),
    ensures
        final(aliases).wf(),
        done is Ok <==> has_key(old(aliases)@, alias.alias@),
        final(aliases)@ == removed(old(aliases)@, alias.alias@),
        done is Ok ==> resolved(final(aliases)@, alias.alias@) == alias.alias@,
        done is Err ==> done == Err::<(), Failure>(Failure::AliasConflict) && final(aliases)@
            == old(aliases)@,
{
    match aliases.remove(alias.alias.as_str()) {
        Some(_) => Ok(()),
        None => Err(Failure::AliasConflict),
    }
}

/// A camera goes by its model name and by its id.
pub open spec fn goes_by(camera: CameraListing, name: Seq<char>) -> bool {
    camera.name@ == name || camera.id@ == name
}

/// The camera at `index` is the only one of `cameras` that goes by `name`.
pub open spec fn only_match(cameras: Seq<CameraListing>, name: Seq<char>, index: int) -> bool {
    &&& 0 <= index < cameras.len()
    &&& goes_by(cameras[index], name)
    &&& forall|j: int| 0 <= j < cameras.len() && j != index ==> !goes_by(#[trigger] cameras[j], name)
}

/// No camera of `cameras` goes by `name`.
pub open spec fn no_match(cameras: Seq<CameraListing>, name: Seq<char>) -> bool {
    forall|j: int| 0 <= j < cameras.len() ==> !goes_by(#[trigger] cameras[j], name)
}

/// Two cameras of `cameras` go by `name`.
pub open spec fn two_matches(cameras: Seq<CameraListing>, name: Seq<char>) -> bool {
    exists|j: int, k: int|
        0 <= j < k < cameras.len() && goes_by(#[trigger] cameras[j], name) && goes_by(
            #[trigger] cameras[k],
            name,
        )
}

/// Finds the one camera that goes by `name`. Fails with `NameUnresolved`
/// where there is none and with `NameAmbiguous` where there are several.
pub fn find_camera(cameras: &Vec<CameraListing>, name: &str) -> (found: Result<usize, Failure>)
    ensures
        match found {
            Ok(index) => only_match(cameras@, name@, index as int),
            Err(Failure::NameUnresolved) => no_match(cameras@, name@),
            Err(Failure::NameAmbiguous) => two_matches(cameras@, name@),
            Err(_) => false,
        },
{
    let mut found: Option<usize> = None;
    let mut i: usize = 0;
    while i < cameras.len()
        invariant
            i <= cameras.len(),
            match found {
                Some(index) => index < i && goes_by(cameras@[index as int], name@) && forall|
                    j: int,
                |
                    0 <= j < i && j != index ==> !goes_by(#[trigger] cameras@[j], name@),
                None => forall|j: int| 0 <= j < i ==> !goes_by(#[trigger] cameras@[j], name@),
            },
        decreases cameras.len() - i,
    {
        if same_text(cameras[i].name.as_str(), name) || same_text(cameras[i].id.as_str(), name) {
            match found {
                Some(index) => {
                    assert(goes_by(cameras@[index as int], name@) && goes_by(
                        cameras@[i as int],
                        name@,
                    ));
                    return Err(Failure::NameAmbiguous);
                },
                None => {
                    found = Some(i);
                },
            }
        }
        i += 1;
    }
    match found {
        Some(index) => Ok(index),
        None => Err(Failure::NameUnresolved),
    }
}

/// Resolves `name`, which may be an alias, a model name or an id, into the
/// id of the one camera it means.
pub fn full_resolve_name(aliases: &Table, cameras: &Vec<CameraListing>, name: &str) -> (id:
    Result<String, Failure>)
    requires
        aliases.wf(),
    ensures
        match id {
            Ok(id) => exists|index: int|
                only_match(cameras@, resolved(aliases@, name@), index) && id@
                    == (#[trigger] cameras@[index]).id@,
            Err(Failure::NameUnresolved) => no_match(cameras@, resolved(aliases@, name@)),
            Err(Failure::NameAmbiguous) => two_matches(cameras@, resolved(aliases@, name@)),
            Err(_) => false,
        },
{
    let target = resolve_alias(aliases, name);
    match find_camera(cameras, target.as_str()) {
        Ok(index) => Ok(cameras[index].id.clone()),
        Err(e) => Err(e),
    }
}

/// The listing of the camera with the model name `name` and the id `id`,
/// marked as acquired where its id is among `used`.
pub fn listing(name: String, id: String, used: &Vec<String>) -> (camera: CameraListing)
    ensures
        camera.name == name,
        camera.id == id,
        camera.acquired == texts(used@).contains(id@),
{
    let acquired = contains(used, id.as_str());
    CameraListing { name, id, acquired }
}

/// What a server does about a camera it is asked to launch.
#[derive(Clone, Copy, Debug, PartialEq, Eq, Structural)]
pub enum Admission {
    /// The camera is free: acquire it.
    Acquire,
    /// The camera is held and the caller allows for that: end with
    /// success and without a word.
    Quit,
    /// The camera is held: fail with `AlreadyAcquired`.
    Refuse,
}

/// Decides what to do about the camera `id`, given the acquired cameras.
pub fn admission(used: &Vec<String>, id: &str, allow_fail: bool) -> (verdict: Admission)
    ensures
        verdict == (if !texts(used@).contains(id@) {
            Admission::Acquire
        } else if allow_fail {
            Admission::Quit
        } else {
            Admission::Refuse
        }),
{
    if !contains(used, id) {
        Admission::Acquire
    } else if allow_fail {
        Admission::Quit
    } else {
        Admission::Refuse
    }
}

/// What `check` says of a camera that is free, unless it is to be quiet.
pub open spec fn free_notice(id: Seq<char>) -> Seq<char> {
    id + " is free"@
}

/// What `check` says of a camera that is held, unless it is to be quiet.
pub open spec fn held_notice(id: Seq<char>) -> Seq<char> {
    id + " is already acquired"@
}

/// Answers `check` for the camera `id`: success with what to print where
/// the camera is free, and `AlreadyAcquired` with what to say where it is
/// held. A quiet check says nothing either way.
pub fn check(used: &Vec<String>, id: &str, quiet: bool) -> (answer: Result<String, (Failure, String)>)
    ensures
        answer is Ok <==> !texts(used@).contains(id@),
        answer matches Ok(text) ==> text@ == (if quiet {
            Seq::<char>::empty()
        } else {
            free_notice(id@)
        }),
        answer matches Err((failure, text)) ==> failure == Failure::AlreadyAcquired && text@ == (
        if quiet {
            Seq::<char>::empty()
        } else {
            held_notice(id@)
        }),
{
    let held = contains(used, id);
    let mut text = String::new();
    if !quiet {
        text.append(id);
        if held {
            text.append(" is already acquired");
        } else {
            text.append(" is free");
        }
    }
    if held {
        Err((Failure::AlreadyAcquired, text))
    } else {
        Ok(text)
    }
}

/// Finds the process id of the server that holds the camera `id`. Fails
/// with `StopFailed` where none is noted.
pub fn stop_target(pids: &Table, id: &str) -> (pid: Result<String, Failure>)
    requires
        pids.wf(),
    ensures
        match pid {
            Ok(pid) => lookup(pids@, id@) == Some(pid@),
            Err(failure) => failure == Failure::StopFailed && lookup(pids@, id@) is None,
        },
{
    match pids.get(id) {
        Some(pid) => Ok(pid.clone()),
        None => Err(Failure::StopFailed),
    }
}

/// A frame size that a camera offers.
#[derive(Clone, Copy, Debug, PartialEq, Eq, Structural)]
pub struct Size {
    pub width: u32,
    pub height: u32,
}

/// How far `a` and `b` lie apart.
pub open spec fn apart(a: u32, b: u32) -> int {
    if a <= b {
        b - a
    } else {
        a - b
    }
}

/// How far `size` is from what was asked for: the widths apart plus the
/// heights apart, where each counts only if it was asked for.
pub open spec fn distance(size: Size, width: Option<u32>, height: Option<u32>) -> int {
    (match width {
        Some(w) => apart(size.width, w),
        None => 0,
    }) + (match height {
        Some(h) => apart(size.height, h),
        None => 0,
    })
}

/// The size at `index` is as close to what was asked for as any of
/// `sizes`, and closer than every size before it.
pub open spec fn closest_at(
    sizes: Seq<Size>,
    width: Option<u32>,
    height: Option<u32>,
    index: int,
) -> bool {
    &&& 0 <= index < sizes.len()
    &&& forall|j: int|
        0 <= j < sizes.len() ==> distance(sizes[index], width, height) <= distance(
            #[trigger] sizes[j],
            width,
            height,
        )
    &&& forall|j: int|
        0 <= j < index ==> distance(sizes[index], width, height) < distance(
            #[trigger] sizes[j],
            width,
            height,
        )
}

/// Computes `distance`.
fn distance_to(size: Size, width: Option<u32>, height: Option<u32>) -> (d: u64)
    ensures
        d == distance(size, width, height),
{
    let dw: u64 = match width {
        Some(w) => if size.width <= w {
            (w - size.width) as u64
        } else {
            (size.width - w) as u64
        },
        None => 0,
    };
    let dh: u64 = match height {
        Some(h) => if size.height <= h {
            (h - size.height) as u64
        } else {
            (size.height - h) as u64
        },
        None => 0,
    };
    dw + dh
}

/// Picks, among the sizes a camera offers, the one closest to what was
/// asked for, and among equally close ones the one listed first. With
/// nothing asked for that is the first size. Only an empty list has no
/// closest size.
pub fn get_closest_size(sizes: &Vec<Size>, width: Option<u32>, height: Option<u32>) -> (best:
    Option<Size>)
    ensures
        best is None <==> sizes@.len() == 0,
        best matches Some(size) ==> exists|index: int|
            closest_at(sizes@, width, height, index) && #[trigger] sizes@[index] == size,
{
    if sizes.len() == 0 {
        return None;
    }
    let mut best: usize = 0;
    let mut least: u64 = distance_to(sizes[0], width, height);
    let mut i: usize = 1;
    while i < sizes.len()
        invariant
            1 <= i <= sizes.len(),
            best < i,
            least == distance(sizes@[best as int], width, height),
            forall|j: int|
                0 <= j < i ==> least <= distance(#[trigger] sizes@[j], width, height),
            forall|j: int|
                0 <= j < best ==> least < distance(#[trigger] sizes@[j], width, height),
        decreases sizes.len() - i,
    {
        let d = distance_to(sizes[i], width, height);
        if d < least {
            best = i;
            least = d;
        }
        i += 1;
    }
    assert(closest_at(sizes@, width, height, best as int));
    Some(sizes[best])
}

/// What the camera says of a configuration it was asked to validate.
#[derive(Clone, Copy, Debug, PartialEq, Eq, Structural)]
pub enum Validation {
    /// It stands as asked for.
    Valid,
    /// It stands, but the camera changed it.
    Adjusted,
    /// It cannot stand.
    Invalid,
}

/// Decides whether a validated configuration is taken: as asked for,
/// always; adjusted, only if the pixel format is still the one asked for,
/// which `format_kept` tells, and else not, as `IncompatibleFormat`;
/// invalid, never.
pub fn accept_validation(status: Validation, format_kept: bool) -> (done: Result<(), Failure>)
    ensures
        done == (match status {
            Validation::Valid => Ok::<(), Failure>(()),
            Validation::Adjusted => if format_kept {
                Ok::<(), Failure>(())
            } else {
                Err::<(), Failure>(Failure::IncompatibleFormat)
            },
            Validation::Invalid => Err::<(), Failure>(Failure::Configure),
        }),
{
    match status {
        Validation::Valid => Ok(()),
        Validation::Adjusted => if format_kept {
            Ok(())
        } else {
            Err(Failure::IncompatibleFormat)
        },
        Validation::Invalid => Err(Failure::Configure),
    }
}

/// The number that the camera stack knows a format by: the four bytes of
/// its code, the first the lowest.
pub open spec fn stack_code(format: PixelFormat) -> int {
    let code = format.fourcc_spec();
    code[0] + 0x100 * code[1] + 0x1_0000 * code[2] + 0x100_0000 * code[3]
}

/// Returns the number that the camera stack knows `format` by.
pub fn stack_code_of(format: PixelFormat) -> (code: u32)
    ensures
        code == stack_code(format),
{
    let bytes = format.fourcc();
    (bytes[0] as u32) + 0x100 * (bytes[1] as u32) + 0x1_0000 * (bytes[2] as u32) + 0x100_0000 * (
    bytes[3] as u32)
}

/// Returns the number that the camera stack knows the format of `fourcc`
/// by.
pub fn translate_pixel_format(fourcc: FourCC) -> (code: u32)
    ensures
        code == stack_code(fourcc.format_spec()),
{
    stack_code_of(fourcc.format())
}

} // verus!

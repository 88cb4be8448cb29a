//! Which firmware the emulator runs, where its files are looked for, and
//! what the command line can ask for.

use crate::screen::{Renderer, ScreenScale};
use crate::text::{chars_of, push_str, string_of};
use vstd::prelude::*;

verus! {

/// A firmware that comes with the emulator.
#[derive(Debug, Copy, Clone, PartialEq, Eq, Structural)]
#[allow(non_camel_case_types)]
pub enum FirmwareVer {
    platform,
    quark,
    console8,
    rainbow,
    electron,
}

/// What the command line asks for.
#[derive(Debug)]
pub struct AppArgs {
    /// The directory that stands for the SD card.
    pub sdcard: Option<String>,
    /// The raw image that stands for the SD card.
    pub sdcard_img: Option<String>,
    pub debugger: bool,
    pub breakpoints: Vec<u32>,
    pub unlimited_cpu: bool,
    pub fullscreen: bool,
    pub verbose: bool,
    /// Fill the RAM with zeroes instead of random bytes.
    pub zero: bool,
    pub osk: bool,
    pub scr_mode: Option<u32>,
    pub mos_bin: Option<String>,
    pub vdp_dll: Option<String>,
    pub firmware: FirmwareVer,
    pub screen_scale: ScreenScale,
    pub renderer: Renderer,
    pub border: u32,
    pub uart1_device: Option<String>,
    pub uart1_baud: Option<u32>,
    pub alternative_hostkey: bool,
}

/// The name of a firmware, as it stands in file names.
pub open spec fn firmware_name(ver: FirmwareVer) -> Seq<char> {
    match ver {
        FirmwareVer::platform => "platform"@,
        FirmwareVer::quark => "quark"@,
        FirmwareVer::console8 => "console8"@,
        FirmwareVer::rainbow => "rainbow"@,
        FirmwareVer::electron => "electron"@,
    }
}

/// A path with one more name: a slash goes between them unless the path
/// is empty or ends with one.
pub open spec fn joined_path(dir: Seq<char>, name: Seq<char>) -> Seq<char> {
    if dir.len() == 0 || dir.last() == '/' {
        dir + name
    } else {
        dir + "/"@ + name
    }
}

/// The directory that holds the firmware: `firmware` below the working
/// directory, or, for an installed emulator, `share/fab-agon-emulator`
/// below the prefix.
pub open spec fn firmware_dir(prefix: Option<Seq<char>>) -> Seq<char> {
    match prefix {
        None => joined_path("."@, "firmware"@),
        Some(p) => joined_path(joined_path(p, "share"@), "fab-agon-emulator"@),
    }
}

/// The file of a firmware: the MOS for the ez80, or the VDP.
pub open spec fn firmware_file(dir: Seq<char>, ver: FirmwareVer, is_mos: bool) -> Seq<char> {
    joined_path(
        dir,
        (if is_mos { "mos_"@ } else { "vdp_"@ }) + firmware_name(ver) + (if is_mos {
            ".bin"@
        } else {
            ".so"@
        }),
    )
}

/// The files to try for a firmware, best first: the one that was named,
/// the one of the version asked for, and the one of `console8`.
pub open spec fn firmware_paths_of(
    ver: FirmwareVer,
    explicit_path: Option<Seq<char>>,
    is_mos: bool,
    prefix: Option<Seq<char>>,
) -> Seq<Seq<char>> {
    let listed = seq![
        firmware_file(firmware_dir(prefix), ver, is_mos),
        firmware_file(firmware_dir(prefix), FirmwareVer::console8, is_mos),
    ];
    match explicit_path {
        Some(p) => seq![p] + listed,
        None => listed,
    }
}

/// What a list of strings holds.
pub open spec fn strings_view(v: Seq<String>) -> Seq<Seq<char>> {
    Seq::new(v.len(), |i: int| v[i]@)
}

/// What a string that may be missing holds.
pub open spec fn option_view(s: Option<&str>) -> Option<Seq<char>> {
    match s {
        Some(t) => Some(t@),
        None => None,
    }
}

fn push_name(path: &mut Vec<char>, name: &str)
    ensures
        final(path)@ == joined_path(old(path)@, name@),
{
    proof {
        reveal_strlit("/");
    }
    let n: usize = path.len();
    if n > 0 && path[n - 1] != '/' {
        push_str(path, "/");
    }
    push_str(path, name);
}

fn firmware_word(ver: FirmwareVer) -> (r: &'static str)
    ensures
        r@ == firmware_name(ver),
{
    match ver {
        FirmwareVer::platform => "platform",
        FirmwareVer::quark => "quark",
        FirmwareVer::console8 => "console8",
        FirmwareVer::rainbow => "rainbow",
        FirmwareVer::electron => "electron",
    }
}

fn firmware_path(prefix: Option<&str>, ver: FirmwareVer, is_mos: bool) -> (r: String)
    ensures
        r@ == firmware_file(firmware_dir(option_view(prefix)), ver, is_mos),
{
    let mut path: Vec<char> = Vec::new();
    match prefix {
        None => {
            push_str(&mut path, ".");
            push_name(&mut path, "firmware");
        },
        Some(p) => {
            push_str(&mut path, p);
            push_name(&mut path, "share");
            push_name(&mut path, "fab-agon-emulator");
        },
    }
    assert(path@ == firmware_dir(option_view(prefix)));
    let mut file: Vec<char> = Vec::new();
    push_str(
        &mut file,
        if is_mos {
            "mos_"
        } else {
            "vdp_"
        },
    );
    push_str(&mut file, firmware_word(ver));
    push_str(
        &mut file,
        if is_mos {
            ".bin"
        } else {
            ".so"
        },
    );
    let name: String = string_of(file.as_slice());
    push_name(&mut path, name.as_str());
    string_of(path.as_slice())
}

/// The files to try for a firmware, best first. `prefix` is where the
/// emulator is installed, if it is.
pub fn firmware_paths(
    ver: FirmwareVer,
    explicit_path: Option<String>,
    is_mos: bool,
    prefix: Option<&str>,
) -> (paths: Vec<String>)
    ensures
        strings_view(paths@) == firmware_paths_of(
            ver,
            match explicit_path {
                Some(p) => Some(p@),
                None => None,
            },
            is_mos,
            option_view(prefix),
        ),
{
    let mut paths: Vec<String> = Vec::new();
    match explicit_path {
        Some(p) => {
            paths.push(p);
        },
        None => {},
    }
    paths.push(firmware_path(prefix, ver, is_mos));
    paths.push(firmware_path(prefix, FirmwareVer::console8, is_mos));
    assert(strings_view(paths@) =~= firmware_paths_of(
        ver,
        match explicit_path {
            Some(p) => Some(p@),
            None => None,
        },
        is_mos,
        option_view(prefix),
    ));
    paths
}

} // verus!

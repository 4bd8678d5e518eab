//! A small script saved beside the program, so double-clicking it works.
//!
//! A Fortran program is a console program. Double-clicked from Explorer it
//! opens a window, prints, and closes the instant it finishes. So the
//! application writes a script beside it that runs the program and then waits.
//!
//! The script never names the program: `%~dpn0` is the batch file's own drive,
//! path and stem, so a program called `Tính dầm.exe` needs no part of its name
//! to survive cmd.exe's OEM codepage.
use crate::pathops::{with_extension, with_extension_of};
use crate::textops::{chars_eq, chars_of};
use vstd::prelude::*;

verus! {

/// Windows batch: `cd /d "%~dp0"` so the program finds its data files beside
/// itself, and `pause` so the window stays.
pub const BAT: &'static str = "@echo off\r\nchcp 65001 >nul 2>&1\r\ncd /d \"%~dp0\"\r\n\"%~dpn0.exe\" %*\r\necho.\r\necho === Chuong trinh da ket thuc / Program finished ===\r\npause\r\n";

/// The same for a Unix shell, resolved before the `cd` so a relative `$0`
/// still points at the right program afterwards.
pub const SH: &'static str = "#!/bin/sh\ndir=$(cd \"$(dirname \"$0\")\" && pwd) || exit 1\nprog=\"$dir/$(basename \"$0\" .sh)\"\ncd \"$dir\" || exit 1\n\"$prog\" \"$@\"\nprintf '\\n=== Chuong trinh da ket thuc / Program finished ===\\n'\nprintf 'Nhan Enter de dong / Press Enter to close: '\nread -r _\n";

pub open spec fn launcher_ext(windows: bool) -> Seq<char> {
    if windows {
        "bat"@
    } else {
        "sh"@
    }
}

/// Where the launcher goes and what is in it, for a program saved at `exe`.
///
/// `None` when the script would land on the program itself, which also covers
/// a path with no file name, whose extension cannot be set.
pub fn beside(exe: &str, windows: bool) -> (r: Option<(String, &'static str)>)
    ensures
        with_extension(exe@, launcher_ext(windows)) == exe@ ==> r is None,
        with_extension(exe@, launcher_ext(windows)) != exe@ ==> (r matches Some((p, script)) && p@
            == with_extension(exe@, launcher_ext(windows)) && script == (if windows {
            BAT
        } else {
            SH
        })),
{
    let path = with_extension_of(
        exe,
        if windows {
            "bat"
        } else {
            "sh"
        },
    );
    let pc = chars_of(path.as_str());
    let ec = chars_of(exe);
    if chars_eq(pc.as_slice(), ec.as_slice()) {
        return None;
    }
    Some(
        (
            path,
            if windows {
                BAT
            } else {
                SH
            },
        ),
    )
}

} // verus!

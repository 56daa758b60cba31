//! A pidfile, so `portal.toml` can be reloaded without hunting for the process.
//!
//! It goes in a well-known file under the per-user runtime directory. The file is removed on a
//! clean exit, which is what a [`Guard`] is for; a crash leaves it stale.

use crate::paths::{inside, is_absolute, join, said, usable};
use crate::text::{decimal, write_decimal};
use vstd::prelude::*;
use vstd::string::*;

verus! {

/// Named for the process.
pub const PID_NAME: &'static str = "xdg-desktop-portal-wlrix.pid";

/// Whose removal says that the process is gone.
#[derive(Debug)]
pub struct Guard {
    pub path: Vec<u8>,
}

/// The runtime directory, or the temporary one where there is none to speak of.
pub open spec fn directory(runtime_dir: Option<Seq<u8>>, temp_dir: Seq<u8>) -> Seq<u8> {
    match usable(runtime_dir) {
        Some(dir) => dir,
        None => temp_dir,
    }
}

/// Where the pidfile lives: in the runtime directory, which is owned by one user and cleaned up
/// on logout, else in the temporary one.
pub fn path(runtime_dir: Option<&[u8]>, temp_dir: &[u8]) -> (path: Vec<u8>)
    ensures
        path@ == inside(directory(said(runtime_dir), temp_dir@), PID_NAME.spec_bytes()),
{
    let name = PID_NAME.as_bytes();
    match runtime_dir {
        Some(dir) => if is_absolute(dir) {
            join(dir, name)
        } else {
            join(temp_dir, name)
        },
        None => join(temp_dir, name),
    }
}

/// What the pidfile says: the process's number, on a line of its own.
pub fn contents(pid: u32) -> (text: String)
    ensures
        text@ == decimal(pid as nat).push('\n'),
{
    let mut text = write_decimal(pid as u64);
    text.push('\n');
    text
}

/// The pidfile is called what its readers look for, whichever directory it is in.
pub proof fn the_pidfile_keeps_its_name(runtime_dir: Option<Seq<u8>>, temp_dir: Seq<u8>)
    ensures
        ({
            let name = PID_NAME.spec_bytes();
            let path = inside(directory(runtime_dir, temp_dir), name);
            path.len() >= name.len() && path.skip(path.len() - name.len()) == name
        }),
{
    reveal_strlit("xdg-desktop-portal-wlrix.pid");
    vstd::utf8::is_ascii_chars_encode_utf8(PID_NAME@);
    assert(!crate::paths::absolute(PID_NAME.spec_bytes()));
    crate::paths::a_name_ends_its_path(directory(runtime_dir, temp_dir), PID_NAME.spec_bytes());
}

/// The pidfile is in the runtime directory where that is an absolute path, and in the temporary
/// one otherwise.
pub proof fn the_pidfile_is_in_the_runtime_directory(runtime_dir: Seq<u8>, temp_dir: Seq<u8>)
    ensures
        runtime_dir.len() > 0 && runtime_dir[0] == 47 ==> directory(Some(runtime_dir), temp_dir)
            == runtime_dir,
        runtime_dir.len() == 0 || runtime_dir[0] != 47 ==> directory(Some(runtime_dir), temp_dir)
            == temp_dir,
        directory(None, temp_dir) == temp_dir,
{
}

} // verus!

//! Paths, which on Linux are bytes.

use vstd::prelude::*;

verus! {

/// The byte that separates the parts of a path.
pub const SLASH: u8 = 47;

/// Whether a path starts at the root.
pub open spec fn absolute(path: Seq<u8>) -> bool {
    path.len() > 0 && path[0] == SLASH
}

/// Whether a path starts at the root.
pub fn is_absolute(path: &[u8]) -> (is: bool)
    ensures
        is == absolute(path@),
{
    path.len() > 0 && path[0] == SLASH
}

/// A name inside a directory. An absolute name stands on its own.
pub open spec fn inside(dir: Seq<u8>, name: Seq<u8>) -> Seq<u8> {
    if absolute(name) {
        name
    } else if dir.len() == 0 || dir.last() == SLASH {
        dir + name
    } else {
        dir.push(SLASH) + name
    }
}

/// A name inside a directory. An absolute name stands on its own.
pub fn join(dir: &[u8], name: &[u8]) -> (path: Vec<u8>)
    ensures
        path@ == inside(dir@, name@),
{
    let mut path: Vec<u8> = Vec::new();
    if !is_absolute(name) {
        path.extend_from_slice(dir);
        if dir.len() > 0 && dir[dir.len() - 1] != SLASH {
            path.push(SLASH);
        }
    }
    path.extend_from_slice(name);
    assert(path@ =~= inside(dir@, name@));
    path
}

/// A directory from the environment, where it is one that can be trusted to mean something: an
/// absolute path.
pub open spec fn usable(dir: Option<Seq<u8>>) -> Option<Seq<u8>> {
    match dir {
        Some(dir) => if absolute(dir) {
            Some(dir)
        } else {
            None
        },
        None => None,
    }
}

/// What an optional byte string says.
pub open spec fn said(bytes: Option<&[u8]>) -> Option<Seq<u8>> {
    match bytes {
        Some(bytes) => Some(bytes@),
        None => None,
    }
}

/// A relative name inside a directory comes after the directory and ends the path.
pub proof fn a_name_ends_its_path(dir: Seq<u8>, name: Seq<u8>)
    requires
        !absolute(name),
    ensures
        inside(dir, name).len() >= dir.len() + name.len(),
        inside(dir, name).take(dir.len() as int) == dir,
        inside(dir, name).skip(inside(dir, name).len() - name.len()) == name,
        absolute(dir) ==> absolute(inside(dir, name)),
{
    let path = inside(dir, name);
    assert(path.take(dir.len() as int) =~= dir);
    assert(path.skip(path.len() - name.len()) =~= name);
    if absolute(dir) {
        assert(path[0] == dir[0]);
    }
}

/// A path says where it starts by its first byte, and there is exactly one slash between a
/// directory and a name inside it.
pub proof fn one_slash_joins(dir: Seq<u8>, name: Seq<u8>)
    requires
        name.len() > 0 && name[0] != 47,
    ensures
        dir.len() > 0 && dir[dir.len() - 1] != 47 ==> inside(dir, name) == dir + seq![47u8] + name,
        dir.len() > 0 && dir[dir.len() - 1] == 47 ==> inside(dir, name) == dir + name,
        dir.len() == 0 ==> inside(dir, name) == name,
{
    if dir.len() > 0 && dir[dir.len() - 1] != 47 {
        assert(inside(dir, name) =~= dir + seq![47u8] + name);
    }
    if dir.len() == 0 {
        assert(inside(dir, name) =~= name);
    }
}

/// A directory from the environment counts exactly where it is an absolute path, and then it is
/// taken as it is.
pub proof fn only_an_absolute_directory_counts(dir: Seq<u8>)
    ensures
        dir.len() > 0 && dir[0] == 47 ==> usable(Some(dir)) == Some(dir),
        dir.len() == 0 || dir[0] != 47 ==> usable(Some(dir)) is None,
        usable(None) is None,
{
}

} // verus!

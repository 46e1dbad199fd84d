use vstd::prelude::*;

use crate::error::OddError;
use crate::storage::path::{file_name, file_name_of};

verus! {

/// How a path is captured.
#[derive(Debug, Clone, Copy, PartialEq, Eq, Structural)]
pub enum Capture {
    File,
    Directory,
}

/// How to capture a path, given what it is: a directory only when
/// recursion was asked for, a regular file as a blob, and nothing else.
pub fn capture_kind(path: &str, is_dir: bool, is_file: bool, recursive: bool) -> (r: Result<
    Capture,
    OddError,
>)
    ensures
        is_dir && recursive ==> r == Ok::<Capture, OddError>(Capture::Directory),
        is_dir && !recursive ==> (r matches Err(OddError::NeedsRecursive { path: p }) && p@ == path@),
        !is_dir && is_file ==> r == Ok::<Capture, OddError>(Capture::File),
        !is_dir && !is_file ==> (r matches Err(OddError::NotFileOrDirectory { path: p }) && p@
            == path@),
{
    if is_dir {
        if !recursive {
            Err(OddError::NeedsRecursive { path: path.to_owned() })
        } else {
            Ok(Capture::Directory)
        }
    } else if is_file {
        Ok(Capture::File)
    } else {
        Err(OddError::NotFileOrDirectory { path: path.to_owned() })
    }
}

/// What a directory walk does with one child.
#[derive(Debug, Clone, Copy, PartialEq, Eq, Structural)]
pub enum ChildCapture {
    File,
    Directory,
    /// Symlinks and other special files are out of scope: skipped rather
    /// than guessed at.
    Skipped,
}

/// How a child found in a directory walk is captured, from its own file
/// type (a symlink is not followed): a directory recursively, a regular
/// file as a blob, anything else not at all.
pub fn child_capture(is_symlink: bool, is_dir: bool, is_file: bool) -> (c: ChildCapture)
    ensures
        is_symlink ==> c == ChildCapture::Skipped,
        !is_symlink && is_dir ==> c == ChildCapture::Directory,
        !is_symlink && !is_dir && is_file ==> c == ChildCapture::File,
        !is_symlink && !is_dir && !is_file ==> c == ChildCapture::Skipped,
{
    if is_symlink {
        ChildCapture::Skipped
    } else if is_dir {
        ChildCapture::Directory
    } else if is_file {
        ChildCapture::File
    } else {
        ChildCapture::Skipped
    }
}

/// The name a capture is bound under: `--as` when given, else the path's
/// last name, else the path itself.
pub fn remember_name(as_name: Option<String>, path: &str) -> (n: String)
    ensures
        as_name matches Some(a) ==> n@ == a@,
        as_name is None ==> match file_name_of(path@) {
            Some(f) => n@ == f,
            None => n@ == path@,
        },
{
    match as_name {
        Some(a) => a,
        None => match file_name(path) {
            Some(f) => f,
            None => path.to_owned(),
        },
    }
}

/// The name a directory's child is bound under: `<name>/<child>`, so
/// every nested file or directory can be reached on its own.
pub fn child_name(name: &str, file_name: &str) -> (n: String)
    ensures
        n@ == name@ + seq!['/'] + file_name@,
{
    let mut n = name.to_owned();
    n.append("/");
    proof {
        reveal_strlit("/");
        assert("/"@ =~= seq!['/']);
    }
    n.append(file_name);
    n
}

} // verus!

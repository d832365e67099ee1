//! Sockets of editors on Unix.
use crate::editor;
use crate::editor::SocketDirProblem;
use crate::path;
use vstd::prelude::*;

verus! {

/// An editor that connects to a Unix socket.
pub struct EditorUnix {
    pub socket_name: String,
}

impl EditorUnix {
    /// The path of the socket: in the runtime directory, or in the fallback directory of the user
    /// if there is no runtime directory.
    pub fn get_socket_path(&self, runtime_dir: Option<&str>, user: &str) -> (r: String)
        requires
            editor::socket_name_problem(self.socket_name@) is None,
        ensures
            r@ == editor::socket_path(
                match runtime_dir {
                    Some(dir) => Some(dir@),
                    None => None,
                },
                user@,
                self.socket_name@,
            ),
    {
        editor::get_socket_path(runtime_dir, user, self.socket_name.as_str())
    }
}

/// The bits of a mode that the parent directory of a socket may have. Group and others should not
/// have any permissions.
pub const ALLOWED_PERMISSIONS: u32 = 0o77700;

/// What is wrong with the directory of a socket, where `parent_mode` is the mode of the parent
/// directory, if it is known.
pub open spec fn socket_dir_problem(
    socket_path: Seq<char>,
    parent_mode: Option<u32>,
) -> Option<SocketDirProblem> {
    if !path::has_parent(socket_path) {
        Some(SocketDirProblem::NoParent)
    } else {
        match parent_mode {
            None => Some(SocketDirProblem::NoMetadata),
            Some(mode) => if mode | ALLOWED_PERMISSIONS == ALLOWED_PERMISSIONS {
                None
            } else {
                Some(SocketDirProblem::NotUserOnly)
            },
        }
    }
}

/// Checks that the parent directory of the socket is only accessible by the current user.
/// `parent_mode` is the mode of the parent directory, if it is known.
pub fn is_user_readable_only(socket_path: &str, parent_mode: Option<u32>) -> (r: Result<
    (),
    SocketDirProblem,
>)
    ensures
        match socket_dir_problem(socket_path@, parent_mode) {
            None => r is Ok,
            Some(problem) => r == Err::<(), _>(problem),
        },
{
    if !path::is_below_something(socket_path) {
        return Err(SocketDirProblem::NoParent);
    }
    match parent_mode {
        None => Err(SocketDirProblem::NoMetadata),
        Some(mode) => if mode | ALLOWED_PERMISSIONS == ALLOWED_PERMISSIONS {
            Ok(())
        } else {
            Err(SocketDirProblem::NotUserOnly)
        },
    }
}

/// The problem in words.
pub open spec fn words(problem: SocketDirProblem) -> Seq<char> {
    match problem {
        SocketDirProblem::NoParent => "The socket path should not be the root directory"@,
        SocketDirProblem::NoMetadata => {
            "Expected to have access to metadata of the socket path's parent"@
        },
        SocketDirProblem::NotUserOnly => {
            "For security reasons, the parent directory of the socket must only be accessible by the current user"@
        },
    }
}

/// The problem in words.
pub fn description(problem: SocketDirProblem) -> (r: String)
    ensures
        r@ == words(problem),
{
    match problem {
        SocketDirProblem::NoParent => "The socket path should not be the root directory".to_owned(),
        SocketDirProblem::NoMetadata => {
            "Expected to have access to metadata of the socket path's parent".to_owned()
        },
        SocketDirProblem::NotUserOnly => {
            "For security reasons, the parent directory of the socket must only be accessible by the current user".to_owned()
        },
    }
}

/// A directory (a mode with the file type of one) passes exactly if group and others have no
/// permission at all.
pub proof fn law_no_access_for_others(mode: u32)
    requires
        mode & 0o170000 == 0o040000,
        mode < 0o200000,
    ensures
        mode | ALLOWED_PERMISSIONS == ALLOWED_PERMISSIONS <==> mode & 0o077 == 0,
{
    assert(mode & 0o170000 == 0o040000 && mode < 0o200000 ==> ((mode | 0o77700 == 0o77700) <==> (
    mode & 0o077 == 0))) by (bit_vector);
}

/// A directory with `0o700` permissions, as the fallback directory has, passes both checks.
pub proof fn law_fallback_dir_passes(mode: u32)
    requires
        mode & 0o170000 == 0o040000,
        mode < 0o200000,
        mode & editor::PERMISSION_BITS == editor::USER_ONLY,
    ensures
        mode | ALLOWED_PERMISSIONS == ALLOWED_PERMISSIONS,
{
    assert(mode & 0o170000 == 0o040000 && mode < 0o200000 && mode & 0o7777 == 0o700 ==> mode
        | 0o77700 == 0o77700) by (bit_vector);
}

/// The directory of a socket is fine exactly if the socket has a parent whose mode is known and
/// has no bit besides those for the user and the kind of the file.
pub proof fn law_socket_dir_problem(socket_path: Seq<char>, parent_mode: Option<u32>)
    ensures
        socket_dir_problem(socket_path, parent_mode) is None <==> path::has_parent(socket_path)
            && parent_mode is Some && (parent_mode->0 | 0o77700u32) == 0o77700u32,
        socket_dir_problem(socket_path, parent_mode) == Some(SocketDirProblem::NoParent)
            <==> !path::has_parent(socket_path),
        socket_dir_problem(socket_path, parent_mode) == Some(SocketDirProblem::NoMetadata)
            <==> path::has_parent(socket_path) && parent_mode is None,
{
}

} // verus!

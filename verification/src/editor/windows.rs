//! Named pipes of editors on Windows.
use crate::text;
use vstd::prelude::*;

verus! {

/// An editor that connects to a named pipe.
pub struct EditorWindows;

impl EditorWindows {
    /// The name of the pipe, without the prefix of named pipes.
    pub fn get_socket_path(&self) -> (r: String)
        ensures
            r@ == "ethersync_pipe"@,
    {
        "ethersync_pipe".to_owned()
    }
}

/// The full name of a pipe: the prefix of named pipes, and what stands behind the last backslash.
pub open spec fn full_pipe_name(socket_path: Seq<char>) -> Seq<char> {
    "\\\\.\\pipe\\"@ + text::segments(socket_path, '\\').last()
}

/// The full name of a pipe.
pub fn pipe_name(socket_path: &str) -> (r: String)
    ensures
        r@ == full_pipe_name(socket_path@),
{
    proof {
        text::lemma_segments_nonempty(socket_path@, '\\');
    }
    let pieces = text::split(socket_path, '\\');
    assert(text::views(pieces@).len() == pieces@.len());
    let last: usize = pieces.len() - 1;
    text::concat("\\\\.\\pipe\\", pieces[last].as_str())
}

/// The full name of a pipe is its own full name. So a client may be given the short or the full
/// name of the pipe that a server listens on.
pub proof fn law_full_pipe_name(socket_path: Seq<char>)
    ensures
        full_pipe_name(full_pipe_name(socket_path)) == full_pipe_name(socket_path),
{
    let pieces = text::segments(socket_path, '\\');
    text::lemma_segments_nonempty(socket_path, '\\');
    let name = pieces.last();
    text::lemma_segments_without_separator(socket_path, '\\', pieces.len() - 1);
    text::lemma_one_segment(name, '\\');
    reveal_strlit("\\\\.\\pipe\\");
    let prefix = "\\\\.\\pipe\\"@;
    assert(prefix.last() == '\\');
    let front = prefix.drop_last();
    assert(full_pipe_name(socket_path) =~= front + seq!['\\'] + name);
    text::lemma_segments_join(front, name, '\\');
}

/// The full name of a pipe is the prefix of named pipes and what stands behind the last backslash;
/// without a backslash, all of the name.
pub proof fn law_pipe_is_named_by_the_last_piece(front: Seq<char>, name: Seq<char>)
    requires
        !name.contains('\\'),
    ensures
        full_pipe_name(name) == "\\\\.\\pipe\\"@ + name,
        full_pipe_name(front + seq!['\\'] + name) == "\\\\.\\pipe\\"@ + name,
{
    text::lemma_one_segment(name, '\\');
    text::lemma_segments_join(front, name, '\\');
}

} // verus!

//! This module is all about daemon to editor communication.
use crate::buffer;
use crate::jsonrpc_forwarder;
use crate::path;
use crate::text;
use crate::uri;
use tokio_util::bytes::BytesMut;
use vstd::prelude::*;
use vstd::utf8::*;

pub mod unix;
pub mod windows;

verus! {

/// Tells the editors at the socket apart.
pub type EditorId = usize;

/// This is our codec to write messages to editors, one per line.
pub struct EditorProtocolCodec;

/// The line of a message.
pub open spec fn line(payload: Seq<char>) -> Seq<u8> {
    encode_utf8(payload) + encode_utf8("\n"@)
}

impl EditorProtocolCodec {
    /// Appends the line of a message to `dst`. `payload` is the message in JSON-RPC, or why it
    /// could not be written so.
    pub fn encode<E>(&mut self, payload: Result<String, E>, dst: &mut BytesMut) -> (r: Result<
        (),
        E,
    >)
        requires
            payload matches Ok(message) ==> buffer::buffer_bytes(*old(dst)).len() + line(
                message@,
            ).len() <= usize::MAX,
        ensures
            match payload {
                Ok(message) => r is Ok && buffer::buffer_bytes(*final(dst))
                    == buffer::buffer_bytes(*old(dst)) + line(message@),
                Err(error) => r == Err::<(), E>(error) && *final(dst) == *old(dst),
            },
    {
        match payload {
            Err(error) => Err(error),
            Ok(message) => {
                dst.extend_from_slice(message.as_str().as_bytes());
                dst.extend_from_slice("\n".as_bytes());
                assert(buffer::buffer_bytes(*dst) =~= buffer::buffer_bytes(*old(dst)) + line(
                    message@,
                ));
                Ok(())
            },
        }
    }
}

/// What is wrong with the name of a socket.
#[derive(Clone, Copy, Debug, PartialEq, Eq, Structural)]
pub enum SocketNameProblem {
    /// The name is not one component of a path.
    NotSingle,
    /// The name is a component, but not a filename.
    NotPlain,
}

/// What is wrong with a socket name: it must be a plain filename.
pub open spec fn socket_name_problem(socket_name: Seq<char>) -> Option<SocketNameProblem> {
    let components = path::components(socket_name);
    if components.len() != 1 {
        Some(SocketNameProblem::NotSingle)
    } else if components[0] is Normal {
        None
    } else {
        Some(SocketNameProblem::NotPlain)
    }
}

impl SocketNameProblem {
    /// The problem in words.
    pub open spec fn words(self) -> Seq<char> {
        match self {
            SocketNameProblem::NotSingle => "The socket name must be a single path component"@,
            SocketNameProblem::NotPlain => "The socket name must be a plain filename"@,
        }
    }

    /// The problem in words.
    pub fn description(&self) -> (r: String)
        ensures
            r@ == self.words(),
    {
        match self {
            SocketNameProblem::NotSingle => {
                "The socket name must be a single path component".to_owned()
            },
            SocketNameProblem::NotPlain => "The socket name must be a plain filename".to_owned(),
        }
    }
}

/// Checks the name of a socket.
pub fn is_valid_socket_name(socket_name: &str) -> (r: Result<(), SocketNameProblem>)
    ensures
        match socket_name_problem(socket_name@) {
            None => r is Ok,
            Some(problem) => r == Err::<(), _>(problem),
        },
{
    let components = path::split_components(socket_name);
    assert(components@.len() == path::components(socket_name@).len());
    if components.len() != 1 {
        return Err(SocketNameProblem::NotSingle);
    }
    assert(components@[0]@ == path::components(socket_name@)[0]);
    match &components[0] {
        path::Component::Normal(_) => Ok(()),
        _ => Err(SocketNameProblem::NotPlain),
    }
}

/// The permissions of the fallback socket directory: its owner may do everything, nobody else
/// anything.
pub const USER_ONLY: u32 = 0o700;

/// The bits of a file mode that are permissions.
pub const PERMISSION_BITS: u32 = 0o7777;

/// The fallback socket directory of a user.
pub open spec fn fallback_socket_dir(user: Seq<char>) -> Seq<char> {
    "/tmp/ethersync-"@ + user
}

/// Provides a fallback socket directory in `/tmp/ethersync-<user>`.
pub fn get_fallback_socket_dir(user: &str) -> (r: String)
    ensures
        r@ == fallback_socket_dir(user@),
{
    text::concat("/tmp/ethersync-", user)
}

/// The path of a socket: in the runtime directory, or in the fallback directory of the user if
/// there is no runtime directory.
pub open spec fn socket_path(
    runtime_dir: Option<Seq<char>>,
    user: Seq<char>,
    socket_name: Seq<char>,
) -> Seq<char> {
    match runtime_dir {
        Some(dir) => path::joined(dir, socket_name),
        None => path::joined(fallback_socket_dir(user), socket_name),
    }
}

/// Returns the path `<runtime_dir>/<socket_name>` or a fallback in `/tmp/ethersync-<user>`.
pub fn get_socket_path(runtime_dir: Option<&str>, user: &str, socket_name: &str) -> (r: String)
    requires
        socket_name_problem(socket_name@) is None,
    ensures
        r@ == socket_path(
            match runtime_dir {
                Some(dir) => Some(dir@),
                None => None,
            },
            user@,
            socket_name@,
        ),
{
    match runtime_dir {
        Some(dir) => path::join(dir, socket_name),
        None => path::join(get_fallback_socket_dir(user).as_str(), socket_name),
    }
}

/// What is wrong with the directory of a socket.
#[derive(Clone, Copy, Debug, PartialEq, Eq, Structural)]
pub enum SocketDirProblem {
    /// The socket path has no parent directory.
    NoParent,
    /// The mode of the parent directory is not known.
    NoMetadata,
    /// Not only the current user may use the parent directory.
    NotUserOnly,
}

/// What is wrong with the directory of a socket, where `parent_mode` is the mode of the parent
/// directory, if it is known.
pub open spec fn socket_dir_problem(
    socket_path: Seq<char>,
    parent_mode: Option<u32>,
) -> Option<SocketDirProblem> {
    if !path::has_parent(socket_path) {
        Some(SocketDirProblem::NoParent)
    } else {
        match parent_mode {
            None => Some(SocketDirProblem::NoMetadata),
            Some(mode) => if mode & PERMISSION_BITS == USER_ONLY {
                None
            } else {
                Some(SocketDirProblem::NotUserOnly)
            },
        }
    }
}

impl SocketDirProblem {
    /// The problem in words.
    pub open spec fn words(self) -> Seq<char> {
        match self {
            SocketDirProblem::NoParent => "The socket path should not be the root directory"@,
            SocketDirProblem::NoMetadata => "Expected to have metadata of parent"@,
            SocketDirProblem::NotUserOnly => {
                "For security reasons, the socket's parent dir must only be accessible by the current user"@
            },
        }
    }

    /// The problem in words.
    pub fn description(&self) -> (r: String)
        ensures
            r@ == self.words(),
    {
        match self {
            SocketDirProblem::NoParent => {
                "The socket path should not be the root directory".to_owned()
            },
            SocketDirProblem::NoMetadata => "Expected to have metadata of parent".to_owned(),
            SocketDirProblem::NotUserOnly => {
                "For security reasons, the socket's parent dir must only be accessible by the current user".to_owned()
            },
        }
    }
}

/// Ensures that the parent directory of the socket has `0o700` permissions. `parent_mode` is the
/// mode of the parent directory, if it is known.
pub fn is_user_readable_only(socket_path: &str, parent_mode: Option<u32>) -> (r: Result<
    (),
    SocketDirProblem,
>)
    ensures
        match socket_dir_problem(socket_path@, parent_mode) {
            None => r is Ok,
            Some(problem) => r == Err::<(), _>(problem),
        },
{
    if !path::is_below_something(socket_path) {
        return Err(SocketDirProblem::NoParent);
    }
    match parent_mode {
        None => Err(SocketDirProblem::NoMetadata),
        Some(mode) => if mode & PERMISSION_BITS == USER_ONLY {
            Ok(())
        } else {
            Err(SocketDirProblem::NotUserOnly)
        },
    }
}

/// What happens at the connection of an editor.
pub enum EditorEvent {
    Connected(EditorId),
    /// The editor has sent a line.
    Line(EditorId, String),
    Disconnected(EditorId),
}

/// An event, by the characters of its line.
pub enum EditorEventView {
    Connected(EditorId),
    Line(EditorId, Seq<char>),
    Disconnected(EditorId),
}

impl View for EditorEvent {
    type V = EditorEventView;

    open spec fn view(&self) -> EditorEventView {
        match self {
            EditorEvent::Connected(id) => EditorEventView::Connected(*id),
            EditorEvent::Line(id, line) => EditorEventView::Line(*id, line@),
            EditorEvent::Disconnected(id) => EditorEventView::Disconnected(*id),
        }
    }
}

/// What a read from the editor comes to: a line is passed on; the end of the stream, and a
/// failure to read, end the connection.
pub open spec fn read_event<E>(
    editor_id: EditorId,
    read: Option<Result<String, E>>,
) -> EditorEventView {
    match read {
        Some(Ok(line)) => EditorEventView::Line(editor_id, line@),
        _ => EditorEventView::Disconnected(editor_id),
    }
}

/// What a read from the editor comes to. After `Disconnected` nothing more is read.
pub fn event_of_read<E>(editor_id: EditorId, read: Option<Result<String, E>>) -> (r: EditorEvent)
    ensures
        r@ == read_event(editor_id, read),
{
    match read {
        Some(Ok(line)) => EditorEvent::Line(editor_id, line),
        _ => EditorEvent::Disconnected(editor_id),
    }
}

/// The events of a connection up to now, after these reads.
pub open spec fn session<E>(editor_id: EditorId, reads: Seq<Option<Result<String, E>>>) -> Seq<
    EditorEventView,
>
    decreases reads.len(),
{
    if reads.len() == 0 {
        seq![EditorEventView::Connected(editor_id)]
    } else {
        let before = session(editor_id, reads.drop_last());
        if before.last() is Disconnected {
            before
        } else {
            before.push(read_event(editor_id, reads.last()))
        }
    }
}

/// A connection begins with `Connected`, which does not come again, and nothing follows a
/// `Disconnected`. In between come the lines that were read, one event for each, in order. All
/// events are of the same editor.
pub proof fn law_session<E>(editor_id: EditorId, reads: Seq<Option<Result<String, E>>>)
    ensures
        session(editor_id, reads).len() >= 1,
        session(editor_id, reads)[0] == EditorEventView::Connected(editor_id),
        forall|i: int|
            0 < i < session(editor_id, reads).len() ==> i <= reads.len() && #[trigger] session(
                editor_id,
                reads,
            )[i] == read_event(editor_id, reads[i - 1]),
        forall|i: int|
            0 <= i < session(editor_id, reads).len() - 1 ==> !(#[trigger] session(
                editor_id,
                reads,
            )[i] is Disconnected),
        session(editor_id, reads).last() is Disconnected || session(editor_id, reads).len()
            == reads.len() + 1,
    decreases reads.len(),
{
    if reads.len() > 0 {
        law_session(editor_id, reads.drop_last());
        let before = session(editor_id, reads.drop_last());
        let all = session(editor_id, reads);
        assert forall|i: int| 0 < i < all.len() implies i <= reads.len() && #[trigger] all[i]
            == read_event(editor_id, reads[i - 1]) by {
            if i < before.len() {
                assert(all[i] == before[i]);
                assert(reads.drop_last()[i - 1] == reads[i - 1]);
            }
        }
        assert forall|i: int| 0 <= i < all.len() - 1 implies !(#[trigger] all[i] is Disconnected) by {
            assert(all[i] == before[i]);
        }
    }
}

proof fn lemma_leading_dot(pieces: Seq<Seq<char>>)
    requires
        pieces.len() > 0,
        pieces[0] == "."@,
    ensures
        path::piece_components(pieces, true).len() > 0,
        path::piece_components(pieces, true)[0] is CurDir,
    decreases pieces.len(),
{
    reveal_strlit(".");
    if pieces.len() == 1 {
        assert(path::piece_components(pieces.drop_last(), true) =~= Seq::empty());
    } else {
        lemma_leading_dot(pieces.drop_last());
    }
}

/// A socket with a valid name is directly in its directory: its path has the components of the
/// directory and one filename behind them.
pub proof fn law_socket_is_in_dir(dir: Seq<char>, socket_name: Seq<char>)
    requires
        socket_name_problem(socket_name) is None,
    ensures
        path::components(path::joined(dir, socket_name)) == path::components(dir).push(
            path::components(socket_name)[0],
        ),
        path::components(socket_name)[0] is Normal,
        path::has_parent(path::joined(dir, socket_name)),
{
    let pieces = text::segments(socket_name, '/');
    text::lemma_segments_nonempty(socket_name, '/');
    if pieces[0] == "."@ {
        lemma_leading_dot(pieces);
    }
    path::law_components_joined(dir, socket_name);
    assert(path::components(dir) + path::components(socket_name) =~= path::components(dir).push(
        path::components(socket_name)[0],
    ));
}

/// Every name without a slash is a valid socket name, but for the empty name and those of the
/// directory itself and its parent.
pub proof fn law_plain_names_are_valid(socket_name: Seq<char>)
    requires
        !socket_name.contains('/'),
    ensures
        socket_name_problem(socket_name) is None <==> socket_name.len() > 0 && socket_name != "."@
            && socket_name != ".."@,
        socket_name_problem(socket_name) is None ==> path::components(socket_name) == seq![
            path::ComponentView::Normal(socket_name),
        ],
{
    text::lemma_one_segment(socket_name, '/');
    assert(socket_name.len() > 0 ==> socket_name.contains(socket_name[0]));
    assert(!uri::is_absolute(socket_name));
    let pieces = seq![socket_name];
    assert(path::piece_components(pieces.drop_last(), true) =~= Seq::empty());
    assert(path::components(socket_name) == path::piece_components(pieces, true));
    if socket_name.len() > 0 && socket_name != "."@ && socket_name != ".."@ {
        assert(path::components(socket_name) =~= seq![path::ComponentView::Normal(socket_name)]);
    }
}

/// A directory that passes the check gives no permission to group and others, and every
/// permission to the user.
pub proof fn law_user_only(mode: u32)
    requires
        mode & PERMISSION_BITS == USER_ONLY,
    ensures
        mode & 0o077 == 0,
        mode & 0o700 == 0o700,
{
    assert(mode & 0o7777 == 0o700 ==> mode & 0o077 == 0 && mode & 0o700 == 0o700) by (bit_vector);
}

/// Only the newline is encoded with the byte of the newline.
proof fn lemma_scalar_without_newline(scalar: u32)
    requires
        is_scalar(scalar),
        scalar != 10,
    ensures
        forall|i: int|
            0 <= i < encode_scalar(scalar).len() ==> #[trigger] encode_scalar(scalar)[i] != 10,
{
    assert(scalar <= 0x7f && scalar != 10 ==> (scalar & 0x7f) as u8 != 10) by (bit_vector);
    assert(forall|b: u8| #[trigger] (0x80u8 | b) != 10) by (bit_vector);
    assert(forall|b: u8| #[trigger] (0xC0u8 | b) != 10) by (bit_vector);
    assert(forall|b: u8| #[trigger] (0xE0u8 | b) != 10) by (bit_vector);
    assert(forall|b: u8| #[trigger] (0xF0u8 | b) != 10) by (bit_vector);
}

/// A text without a newline is encoded without the byte of the newline.
proof fn lemma_no_newline(payload: Seq<char>)
    requires
        !payload.contains('\n'),
    ensures
        forall|i: int|
            0 <= i < encode_utf8(payload).len() ==> #[trigger] encode_utf8(payload)[i] != 10,
    decreases payload.len(),
{
    if payload.len() > 0 {
        let first = payload[0];
        let rest = payload.drop_first();
        assert(payload.contains(first));
        char_is_scalar(first);
        char_u32_cast(first, first as u32);
        assert(first as u32 == 10 ==> first == '\n');
        lemma_scalar_without_newline(first as u32);
        assert forall|i: int| 0 <= i < rest.len() implies rest[i] != '\n' by {
            assert(payload.contains(payload[i + 1]));
        }
        lemma_no_newline(rest);
        let bytes = encode_utf8(payload);
        let front = encode_scalar(first as u32);
        assert forall|i: int| 0 <= i < bytes.len() implies #[trigger] bytes[i] != 10 by {
            if i >= front.len() {
                assert(bytes[i] == encode_utf8(rest)[i - front.len()]);
            }
        }
    }
}

/// The first newline that an editor reads is the one behind the message, as long as the message
/// holds none itself: the editor gets the message back, whatever follows it.
pub proof fn law_line(payload: Seq<char>, after: Seq<u8>)
    requires
        !payload.contains('\n'),
    ensures
        jsonrpc_forwarder::position(line(payload) + after, encode_utf8("\n"@)) == Some(
            encode_utf8(payload).len() as int,
        ),
        decode_utf8((line(payload) + after).take(encode_utf8(payload).len() as int)) == payload,
{
    lemma_no_newline(payload);
    encode_utf8_decode_utf8(payload);
    reveal_strlit("\n");
    is_ascii_chars_encode_utf8("\n"@);
    let newline = encode_utf8("\n"@);
    assert(newline =~= seq![10u8]);
    let bytes = line(payload) + after;
    let end = encode_utf8(payload).len() as int;
    assert(bytes.take(end) =~= encode_utf8(payload));
    assert(bytes.subrange(end, end + 1) =~= newline);
    assert forall|j: int| 0 <= j < end implies !#[trigger] jsonrpc_forwarder::occurs_at(
        bytes,
        newline,
        j,
    ) by {
        assert(bytes[j] == encode_utf8(payload)[j]);
        assert(bytes.subrange(j, j + 1)[0] == bytes[j]);
    }
    jsonrpc_forwarder::lemma_position(bytes, newline, end);
}

/// What follows a line is not touched: the line ends with one newline.
pub proof fn law_line_ends(payload: Seq<char>, after: Seq<u8>)
    ensures
        line(payload).len() == encode_utf8(payload).len() + 1,
        line(payload).last() == 10,
        (line(payload) + after).skip(encode_utf8(payload).len() as int + 1) == after,
        (line(payload) + after).take(encode_utf8(payload).len() as int) == encode_utf8(payload),
{
    reveal_strlit("\n");
    is_ascii_chars_encode_utf8("\n"@);
    let end = encode_utf8(payload).len() as int;
    assert(encode_utf8("\n"@)[0] == 10);
    assert((line(payload) + after).skip(end + 1) =~= after);
    assert((line(payload) + after).take(end) =~= encode_utf8(payload));
}

/// A read that brings a line is an event with all of the line; the end, and a failure, end the
/// connection.
pub proof fn law_read_event<E>(editor_id: EditorId, line: String, error: E)
    ensures
        read_event::<E>(editor_id, Some(Ok(line))) == EditorEventView::Line(editor_id, line@),
        read_event::<E>(editor_id, Some(Err(error))) == EditorEventView::Disconnected(editor_id),
        read_event::<E>(editor_id, None) == EditorEventView::Disconnected(editor_id),
{
}

/// An event is shown with all that it holds.
pub proof fn law_event_view(event: EditorEvent)
    ensures
        match event {
            EditorEvent::Connected(id) => event@ == EditorEventView::Connected(id),
            EditorEvent::Line(id, line) => event@ == EditorEventView::Line(id, line@),
            EditorEvent::Disconnected(id) => event@ == EditorEventView::Disconnected(id),
        },
{
}

/// A name is valid exactly if its one component is a filename. Of other names it is said first
/// whether they have one component at all.
pub proof fn law_socket_name_problem(socket_name: Seq<char>)
    ensures
        ({
            let components = path::components(socket_name);
            &&& socket_name_problem(socket_name) is None <==> components.len() == 1 && (
            components[0] matches path::ComponentView::Normal(_))
            &&& socket_name_problem(socket_name) == Some(SocketNameProblem::NotSingle)
                <==> components.len() != 1
        }),
{
}

/// The socket is in the runtime directory if there is one, else in a directory in `/tmp` that is
/// named after the user.
pub proof fn law_socket_path(dir: Seq<char>, user: Seq<char>, socket_name: Seq<char>)
    ensures
        socket_path(Some(dir), user, socket_name) == path::joined(dir, socket_name),
        socket_path(None, user, socket_name) == path::joined(
            "/tmp/ethersync-"@ + user,
            socket_name,
        ),
{
}

/// The directory of a socket is fine exactly if the socket has a parent whose mode is known and
/// has the permissions `0o700`.
pub proof fn law_socket_dir_problem(path: Seq<char>, parent_mode: Option<u32>)
    ensures
        socket_dir_problem(path, parent_mode) is None <==> path::has_parent(path) && parent_mode
            is Some && (parent_mode->0 & 0o7777u32) == 0o700u32,
        socket_dir_problem(path, parent_mode) == Some(SocketDirProblem::NoParent)
            <==> !path::has_parent(path),
        socket_dir_problem(path, parent_mode) == Some(SocketDirProblem::NoMetadata)
            <==> path::has_parent(path) && parent_mode is None,
{
}

} // verus!

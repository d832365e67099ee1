//! What messages come to at a connection, stated over the calls that are made of the OT servers,
//! and over what is handed out.
use crate::editor_connection;
use crate::editor_connection::ConnectionView;
use crate::editor_connection::EditorConnection;
use crate::editor_connection::OpenAnswer;
use crate::editor_connection::OpenQuestion;
use crate::editor_connection::Opening;
use crate::editor_connection::OutsideStep;
use crate::ot;
use crate::ot::OtServer;
use crate::types;
use crate::types::EditorProtocolMessageFromEditor;
use crate::types::EditorProtocolMessageToEditor;
use crate::types::EditorProtocolObject;
use crate::types::InsideMessage;
use crate::types::Range;
use crate::types::RevisionedEditorTextDelta;
use crate::types::TextDelta;
use crate::uri;
use vstd::prelude::*;
use vstd::utf8::*;

verus! {

/// Whether a step is an error answer with this text and this data, and nothing is sent.
pub open spec fn answers_error(
    step: OutsideStep,
    message: Seq<char>,
    data: Option<Seq<char>>,
) -> bool {
    &&& step matches OutsideStep::Reply(reply)
    &&& reply.to_editor@.len() == 0
    &&& reply.result matches Err(error)
    &&& error.code == -1
    &&& error.message@ == message
    &&& match data {
        Some(data) => error.data matches Some(given) && given@ == data,
        None => error.data is None,
    }
}

/// Whether a step puts this question about a file in the base directory.
pub open spec fn puts(
    step: OutsideStep,
    question: OpenQuestion,
    file_path: Seq<char>,
    absolute_file_path: Seq<char>,
) -> bool {
    &&& step matches OutsideStep::Ask(opening)
    &&& opening.question == question
    &&& opening.file_path@ == file_path
    &&& opening.absolute_file_path@ == absolute_file_path
}

/// Whether an object tells the editor of a change, by the URI of a file in the base directory.
pub open spec fn is_edit_for(
    object: EditorProtocolObject,
    base_dir: Seq<char>,
    file_path: Seq<char>,
    delta: RevisionedEditorTextDelta,
) -> bool {
    &&& object matches EditorProtocolObject::Request(
        EditorProtocolMessageToEditor::Edit { uri, delta: told },
    )
    &&& uri@ == "file://"@ + base_dir + "/"@ + file_path
    &&& told == delta
}

proof fn lemma_uri(base_dir: Seq<char>, file_path: Seq<char>)
    ensures
        uri::file_uri(base_dir, file_path) == "file://"@ + base_dir + "/"@ + file_path,
        uri::absolute_path(base_dir, file_path) == base_dir + "/"@ + file_path,
{
    assert(uri::file_uri(base_dir, file_path) =~= "file://"@ + base_dir + "/"@ + file_path);
}

/// A change from inside the daemon is given, as it is, to the OT server of its file, and the
/// editor is told exactly what the server answers. If the file is not open, nothing is done.
pub proof fn law_inside_edit<S: OtServer>(
    before: ConnectionView<S>,
    file_path: String,
    delta: TextDelta,
    after: ConnectionView<S>,
    object: Option<EditorProtocolObject>,
) -> (r: (S, RevisionedEditorTextDelta))
    requires
        editor_connection::inside_handled(
            before,
            InsideMessage::Edit { file_path, delta },
            after,
            editor_connection::object_view(object),
        ),
    ensures
        before.ot_servers.contains_key(file_path@) ==> {
            &&& call_ensures(
                S::apply_crdt_change,
                (before.ot_servers[file_path@], &delta),
                (r.0, r.1),
            )
            &&& after == (ConnectionView {
                ot_servers: before.ot_servers.insert(file_path@, r.0),
                ..before
            })
            &&& object is Some && is_edit_for(object->0, before.base_dir, file_path@, r.1)
        },
        !before.ot_servers.contains_key(file_path@) ==> after == before && object is None,
{
    lemma_uri(before.base_dir, file_path@);
    let (server, answer) = choose|server: S, answer: RevisionedEditorTextDelta|
        {
            &&& #[trigger] ot::crdt_change_applied(
                before.ot_servers[file_path@],
                delta,
                server,
                answer,
            )
            &&& after == before.with_server(file_path@, server)
            &&& editor_connection::object_view(object) == Some(
                editor_connection::edit_message(before.base_dir, file_path@, answer),
            )
        };
    (server, answer)
}

/// A cursor from inside the daemon is told to the editor: whose it is, under which name, in which
/// file, and all of its ranges. Nothing changes.
pub proof fn law_inside_cursor<S: OtServer>(
    before: ConnectionView<S>,
    cursor_id: String,
    name: Option<String>,
    file_path: String,
    ranges: Vec<Range>,
    after: ConnectionView<S>,
    object: Option<EditorProtocolObject>,
)
    requires
        editor_connection::inside_handled(
            before,
            InsideMessage::Cursor { cursor_id, name, file_path, ranges },
            after,
            editor_connection::object_view(object),
        ),
    ensures
        after == before,
        ({
            &&& object matches Some(
                EditorProtocolObject::Request(
                    EditorProtocolMessageToEditor::Cursor {
                        name: told_name,
                        userid,
                        uri,
                        ranges: told_ranges,
                    },
                ),
            )
            &&& told_name is Some <==> name is Some
            &&& told_name is Some ==> told_name->0@ == name->0@
            &&& userid@ == cursor_id@
            &&& uri@ == "file://"@ + before.base_dir + "/"@ + file_path@
            &&& told_ranges@ == ranges@
        }),
{
    lemma_uri(before.base_dir, file_path@);
}

/// Other messages from inside the daemon do nothing.
pub proof fn law_inside_other<S: OtServer>(
    before: ConnectionView<S>,
    message: InsideMessage,
    after: ConnectionView<S>,
    object: Option<EditorProtocolObject>,
)
    requires
        message is Open || message is Close,
        editor_connection::inside_handled(
            before,
            message,
            after,
            editor_connection::object_view(object),
        ),
    ensures
        after == before,
        object is None,
{
}

/// A message from the editor about something that is not in the base directory is answered with
/// an error, which names the path, and changes nothing.
pub proof fn law_outside_uri<S: OtServer>(
    before: ConnectionView<S>,
    message: EditorProtocolMessageFromEditor,
    user: Option<Seq<char>>,
    after: ConnectionView<S>,
    step: OutsideStep,
)
    requires
        editor_connection::outside_handled(before, message, user, after, step),
        !uri::is_within(before.base_dir, editor_connection::message_uri(message)),
    ensures
        after == before,
        ({
            let path = uri::absolute_part(editor_connection::message_uri(message));
            if path.len() > 0 && path[0] == '/' {
                answers_error(
                    step,
                    "Path '"@ + path + "' is not within base dir '"@ + before.base_dir + "/'"@,
                    None,
                )
            } else {
                answers_error(step, "Path '"@ + path + "' is not an absolute file:// URI"@, None)
            }
        }),
{
}

/// The message carries its URI.
pub proof fn law_message_uri(message: EditorProtocolMessageFromEditor)
    ensures
        match message {
            EditorProtocolMessageFromEditor::Open { uri } => editor_connection::message_uri(message)
                == uri@,
            EditorProtocolMessageFromEditor::Close { uri } => editor_connection::message_uri(
                message,
            ) == uri@,
            EditorProtocolMessageFromEditor::Edit { delta, uri } => editor_connection::message_uri(
                message,
            ) == uri@,
            EditorProtocolMessageFromEditor::Cursor { uri, ranges } => {
                editor_connection::message_uri(message) == uri@
            },
        },
{
}

/// An `Open` first asks whether the file exists, and changes nothing yet.
pub proof fn law_outside_open<S: OtServer>(
    before: ConnectionView<S>,
    opened_uri: String,
    user: Option<Seq<char>>,
    after: ConnectionView<S>,
    step: OutsideStep,
)
    requires
        editor_connection::outside_handled(
            before,
            EditorProtocolMessageFromEditor::Open { uri: opened_uri },
            user,
            after,
            step,
        ),
        uri::is_within(before.base_dir, opened_uri@),
    ensures
        after == before,
        puts(
            step,
            OpenQuestion::Exists,
            uri::file_path(before.base_dir, opened_uri@),
            before.base_dir + "/"@ + uri::file_path(before.base_dir, opened_uri@),
        ),
{
}

/// A `Close` ends the ownership of the file, keeps that of all others, and is passed on.
pub proof fn law_outside_close<S: OtServer>(
    before: ConnectionView<S>,
    closed_uri: String,
    user: Option<Seq<char>>,
    after: ConnectionView<S>,
    step: OutsideStep,
)
    requires
        editor_connection::outside_handled(
            before,
            EditorProtocolMessageFromEditor::Close { uri: closed_uri },
            user,
            after,
            step,
        ),
        uri::is_within(before.base_dir, closed_uri@),
    ensures
        after.id == before.id,
        after.base_dir == before.base_dir,
        !after.ot_servers.contains_key(uri::file_path(before.base_dir, closed_uri@)),
        forall|other: Seq<char>|
            other != uri::file_path(before.base_dir, closed_uri@) ==> (
            #[trigger] after.ot_servers.contains_key(other) == before.ot_servers.contains_key(other))
                && (before.ot_servers.contains_key(other) ==> after.ot_servers[other]
                == before.ot_servers[other]),
        ({
            &&& step matches OutsideStep::Reply(reply)
            &&& reply.to_editor@.len() == 0
            &&& reply.result matches Ok(InsideMessage::Close { file_path })
            &&& file_path@ == uri::file_path(before.base_dir, closed_uri@)
        }),
{
    assert(editor_connection::object_views(step->Reply_0.to_editor@).len() == 0);
}

/// An `Edit` of an open file is given, as it is, to the OT server of the file. What the server
/// answers for the editor is sent, all of it and in its order; what it makes of the edit is passed
/// on. An edit of a file that is not open is answered with an error, and changes nothing.
pub proof fn law_outside_edit<S: OtServer>(
    before: ConnectionView<S>,
    rev_delta: RevisionedEditorTextDelta,
    edited_uri: String,
    user: Option<Seq<char>>,
    after: ConnectionView<S>,
    step: OutsideStep,
) -> (r: (S, TextDelta, Vec<RevisionedEditorTextDelta>))
    requires
        editor_connection::outside_handled(
            before,
            EditorProtocolMessageFromEditor::Edit { delta: rev_delta, uri: edited_uri },
            user,
            after,
            step,
        ),
        uri::is_within(before.base_dir, edited_uri@),
    ensures
        before.ot_servers.contains_key(uri::file_path(before.base_dir, edited_uri@)) ==> ({
            let path = uri::file_path(before.base_dir, edited_uri@);
            &&& call_ensures(
                S::apply_editor_operation,
                (before.ot_servers[path], &rev_delta),
                (r.0, (r.1, r.2)),
            )
            &&& after == (ConnectionView {
                ot_servers: before.ot_servers.insert(path, r.0),
                ..before
            })
            &&& step matches OutsideStep::Reply(reply)
            &&& reply.to_editor@.len() == r.2@.len()
            &&& forall|i: int|
                0 <= i < r.2@.len() ==> is_edit_for(
                    reply.to_editor@[i],
                    before.base_dir,
                    path,
                    #[trigger] r.2@[i],
                )
            &&& reply.result matches Ok(InsideMessage::Edit { file_path, delta })
            &&& file_path@ == path
            &&& delta == r.1
        }),
        !before.ot_servers.contains_key(uri::file_path(before.base_dir, edited_uri@)) ==> {
            &&& after == before
            &&& answers_error(
                step,
                "File not found"@,
                Some("Please stop sending edits for this file or 'open' it before."@),
            )
        },
{
    let path = uri::file_path(before.base_dir, edited_uri@);
    lemma_uri(before.base_dir, path);
    let (server, delta, answers) = choose|
        server: S,
        delta: TextDelta,
        answers: Seq<RevisionedEditorTextDelta>,
    |
        {
            &&& #[trigger] ot::editor_operation_applied(
                before.ot_servers[path],
                rev_delta,
                server,
                delta,
                answers,
            )
            &&& after == before.with_server(path, server)
            &&& step.passes_on(
                editor_connection::edit_messages(before.base_dir, path, answers),
                types::InsideMessageView::Edit { file_path: path, delta },
            )
        };
    let given = choose|given: Vec<RevisionedEditorTextDelta>|
        given@ == answers && #[trigger] call_ensures(
            S::apply_editor_operation,
            (before.ot_servers[path], &rev_delta),
            (server, (delta, given)),
        );
    if before.ot_servers.contains_key(path) {
        let reply = step->Reply_0;
        let messages = editor_connection::edit_messages(before.base_dir, path, answers);
        assert(editor_connection::object_views(reply.to_editor@) == messages);
        assert(editor_connection::object_views(reply.to_editor@).len() == messages.len());
        assert forall|i: int| 0 <= i < given@.len() implies is_edit_for(
            reply.to_editor@[i],
            before.base_dir,
            path,
            #[trigger] given@[i],
        ) by {
            assert(editor_connection::object_views(reply.to_editor@)[i] == messages[i]);
        }
    }
    (server, delta, given)
}

/// A `Cursor` is passed on with all of its ranges, under the name of the connection and with the
/// name of the user. Nothing changes.
pub proof fn law_outside_cursor<S: OtServer>(
    before: ConnectionView<S>,
    cursor_uri: String,
    ranges: Vec<Range>,
    user: Option<String>,
    after: ConnectionView<S>,
    step: OutsideStep,
)
    requires
        editor_connection::outside_handled(
            before,
            EditorProtocolMessageFromEditor::Cursor { uri: cursor_uri, ranges },
            types::opt_view(user),
            after,
            step,
        ),
        uri::is_within(before.base_dir, cursor_uri@),
    ensures
        after == before,
        ({
            &&& step matches OutsideStep::Reply(reply)
            &&& reply.to_editor@.len() == 0
            &&& reply.result matches Ok(
                InsideMessage::Cursor { cursor_id, name, file_path, ranges: passed_on },
            )
            &&& cursor_id@ == before.id
            &&& name is Some <==> user is Some
            &&& name is Some ==> name->0@ == user->0@
            &&& file_path@ == uri::file_path(before.base_dir, cursor_uri@)
            &&& passed_on@ == ranges@
        }),
{
    let reply = step->Reply_0;
    assert(editor_connection::object_views(reply.to_editor@).len() == 0);
}

/// A file that is there is looked up among the ignored ones, and one that is not there is created
/// first. A file is read only if it is not ignored. Failures are answered in their own words. Up
/// to here nothing changes.
pub proof fn law_open_questions<S: OtServer>(
    before: ConnectionView<S>,
    opening: Opening,
    answer: OpenAnswer,
    after: ConnectionView<S>,
    step: OutsideStep,
)
    requires
        editor_connection::open_continued(before, opening, answer, after, step),
        !(answer matches OpenAnswer::Content(Ok(bytes)) && valid_utf8(bytes@)),
    ensures
        after == before,
        match answer {
            OpenAnswer::Exists(Ok(true)) => puts(
                step,
                OpenQuestion::IsIgnored,
                opening.file_path@,
                opening.absolute_file_path@,
            ),
            OpenAnswer::Exists(Ok(false)) => puts(
                step,
                OpenQuestion::CreateEmpty,
                opening.file_path@,
                opening.absolute_file_path@,
            ),
            OpenAnswer::Exists(Err(description)) => answers_error(step, description@, None),
            OpenAnswer::Created(Ok(_)) => puts(
                step,
                OpenQuestion::IsIgnored,
                opening.file_path@,
                opening.absolute_file_path@,
            ),
            OpenAnswer::Created(Err(description)) => answers_error(step, description@, None),
            OpenAnswer::Ignored(false) => puts(
                step,
                OpenQuestion::Read,
                opening.file_path@,
                opening.absolute_file_path@,
            ),
            OpenAnswer::Ignored(true) => answers_error(
                step,
                "File '"@ + editor_connection::debug_path_text(opening.absolute_file_path@)
                    + "' is ignored"@,
                Some("This file should not be shared with other peers"@),
            ),
            OpenAnswer::Content(Err(description)) => answers_error(step, description@, None),
            OpenAnswer::Content(Ok(_)) => answers_error(
                step,
                "Failed to convert bytes to string"@,
                None,
            ),
        },
{
}

/// A file that could be read as text is opened with an OT server that is started with all of the
/// text: the string that it is given is encoded in exactly the bytes that were read. Nothing else
/// changes, and the opening is passed on.
pub proof fn law_open_starts_with_the_content<S: OtServer>(
    before: ConnectionView<S>,
    opening: Opening,
    bytes: Vec<u8>,
    after: ConnectionView<S>,
    step: OutsideStep,
) -> (server: S)
    requires
        editor_connection::open_continued(
            before,
            opening,
            OpenAnswer::Content(Ok(bytes)),
            after,
            step,
        ),
        valid_utf8(bytes@),
    ensures
        exists|given: String|
            encode_utf8(given@) == bytes@ && #[trigger] call_ensures(S::new, (given,), server),
        after == (ConnectionView {
            ot_servers: before.ot_servers.insert(opening.file_path@, server),
            ..before
        }),
        ({
            &&& step matches OutsideStep::Reply(reply)
            &&& reply.to_editor@.len() == 0
            &&& reply.result matches Ok(InsideMessage::Open { file_path })
            &&& file_path@ == opening.file_path@
        }),
{
    decode_utf8_encode_utf8(bytes@);
    let reply = step->Reply_0;
    assert(editor_connection::object_views(reply.to_editor@).len() == 0);
    let server = choose|server: S| #[trigger]
        ot::started(decode_utf8(bytes@), server) && after == before.with_server(
            opening.file_path@,
            server,
        );
    let given = choose|given: String|
        given@ == decode_utf8(bytes@) && #[trigger] call_ensures(S::new, (given,), server);
    assert(encode_utf8(given@) == bytes@);
    server
}

/// A connection is shown with its name, its base directory and its OT servers, as they are.
pub proof fn law_connection_view<S>(connection: EditorConnection<S>)
    ensures
        connection@.id == connection.id@,
        connection@.base_dir == connection.base_dir@,
        connection@.ot_servers == connection.ot_servers@,
{
}

/// When the editor could not be reached, that is the answer, whatever else the answer would have
/// been.
pub proof fn law_send_error()
    ensures
        editor_connection::send_error().code == -1,
        editor_connection::send_error().message
            == "Failed to send message to editor. It probably has disconnected."@,
        editor_connection::send_error().data is None,
{
}

} // verus!

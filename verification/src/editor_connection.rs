//! One connection to an editor.
use crate::file_map::FileMap;
use crate::ot;
use crate::ot::OtServer;
use crate::text;
use crate::types;
use crate::types::EditorProtocolMessageError;
use crate::types::EditorProtocolMessageFromEditor;
use crate::types::EditorProtocolMessageToEditor;
use crate::types::EditorProtocolObject;
use crate::types::InsideMessage;
use crate::types::RevisionedEditorTextDelta;
use crate::types::TextDelta;
use crate::uri;
use vstd::prelude::*;
use vstd::utf8::*;

pub mod laws;

verus! {

/// Represents a connection to an editor. Knows what to tell it, and handles the OT.
pub struct EditorConnection<S> {
    pub id: String,
    pub base_dir: String,
    /// There's one OT server per open buffer.
    pub ot_servers: FileMap<S>,
}

/// A connection: its name, the base directory, and the OT server of each open file.
pub struct ConnectionView<S> {
    pub id: Seq<char>,
    pub base_dir: Seq<char>,
    pub ot_servers: Map<Seq<char>, S>,
}

impl<S> View for EditorConnection<S> {
    type V = ConnectionView<S>;

    open spec fn view(&self) -> ConnectionView<S> {
        ConnectionView {
            id: self.id@,
            base_dir: self.base_dir@,
            ot_servers: self.ot_servers@,
        }
    }
}

impl<S> ConnectionView<S> {
    /// The connection with `server` for the file.
    pub open spec fn with_server(self, file_path: Seq<char>, server: S) -> Self {
        ConnectionView { ot_servers: self.ot_servers.insert(file_path, server), ..self }
    }

    /// The connection without a server for the file.
    pub open spec fn without_server(self, file_path: Seq<char>) -> Self {
        ConnectionView { ot_servers: self.ot_servers.remove(file_path), ..self }
    }
}

/// What has to be found out, or done, in the file system before a file can be opened.
#[derive(Clone, Copy, Debug, PartialEq, Eq, Structural)]
pub enum OpenQuestion {
    /// Does the file exist?
    Exists,
    /// Create the file, empty.
    CreateEmpty,
    /// Is the file ignored?
    IsIgnored,
    /// Read the file.
    Read,
}

/// What came of an `OpenQuestion`. A failure brings its description.
pub enum OpenAnswer {
    Exists(Result<bool, String>),
    Created(Result<(), String>),
    Ignored(bool),
    Content(Result<Vec<u8>, String>),
}

impl OpenAnswer {
    /// Whether this answers that question.
    pub open spec fn answers(self, question: OpenQuestion) -> bool {
        match question {
            OpenQuestion::Exists => self is Exists,
            OpenQuestion::CreateEmpty => self is Created,
            OpenQuestion::IsIgnored => self is Ignored,
            OpenQuestion::Read => self is Content,
        }
    }
}

/// A file that is being opened, and the question to put about it now.
pub struct Opening {
    pub file_path: String,
    pub absolute_file_path: String,
    pub question: OpenQuestion,
}

/// What to send to the editor, in order, and the outcome once that has been sent.
pub struct Reply {
    pub to_editor: Vec<EditorProtocolObject>,
    pub result: Result<InsideMessage, EditorProtocolMessageError>,
}

/// How the handling of a message from the editor goes on.
pub enum OutsideStep {
    /// Put the question, and hand the answer to `continue_open`.
    Ask(Opening),
    /// Send, then finish with `finish`.
    Reply(Reply),
}

/// What follows from an answer about a file that is being opened.
pub enum OpenNext {
    Ask(OpenQuestion),
    Refuse(types::MessageErrorView),
    /// Open the file with this text.
    Start(Seq<char>),
}

/// The error answer for a failure with this description.
pub open spec fn protocol_error(description: Seq<char>) -> types::MessageErrorView {
    types::MessageErrorView { code: -1, message: description, data: None }
}

/// The error answer for a URI that is not within the base directory.
pub open spec fn uri_error(base_dir: Seq<char>, uri: Seq<char>) -> types::MessageErrorView {
    let path = uri::absolute_part(uri);
    if !uri::is_absolute(path) {
        protocol_error("Path '"@ + path + "' is not an absolute file:// URI"@)
    } else {
        protocol_error("Path '"@ + path + "' is not within base dir '"@ + base_dir + "/'"@)
    }
}

/// The error answer for an edit of a file that is not open.
pub open spec fn not_open_error() -> types::MessageErrorView {
    types::MessageErrorView {
        code: -1,
        message: "File not found"@,
        data: Some("Please stop sending edits for this file or 'open' it before."@),
    }
}

/// The error answer for the opening of an ignored file.
pub open spec fn ignored_error(absolute_file_path: Seq<char>) -> types::MessageErrorView {
    quoted_ignored_error(debug_path_text(absolute_file_path))
}

/// The error answer for the opening of an ignored file whose path is quoted like this.
pub open spec fn quoted_ignored_error(quoted: Seq<char>) -> types::MessageErrorView {
    types::MessageErrorView {
        code: -1,
        message: "File '"@ + quoted + "' is ignored"@,
        data: Some("This file should not be shared with other peers"@),
    }
}

/// What is said when the editor could not be reached.
pub open spec fn send_failure() -> Seq<char> {
    "Failed to send message to editor. It probably has disconnected."@
}

/// The error answer when the editor could not be reached.
pub open spec fn send_error() -> types::MessageErrorView {
    protocol_error(send_failure())
}

/// What follows from an answer: a file is read only once it exists and is not ignored, and
/// opened only if it is text.
pub open spec fn open_next(absolute_file_path: Seq<char>, answer: OpenAnswer) -> OpenNext {
    match answer {
        OpenAnswer::Exists(Err(description)) => OpenNext::Refuse(protocol_error(description@)),
        OpenAnswer::Exists(Ok(true)) => OpenNext::Ask(OpenQuestion::IsIgnored),
        OpenAnswer::Exists(Ok(false)) => OpenNext::Ask(OpenQuestion::CreateEmpty),
        OpenAnswer::Created(Err(description)) => OpenNext::Refuse(protocol_error(description@)),
        OpenAnswer::Created(Ok(_)) => OpenNext::Ask(OpenQuestion::IsIgnored),
        OpenAnswer::Ignored(true) => OpenNext::Refuse(ignored_error(absolute_file_path)),
        OpenAnswer::Ignored(false) => OpenNext::Ask(OpenQuestion::Read),
        OpenAnswer::Content(Err(description)) => OpenNext::Refuse(protocol_error(description@)),
        OpenAnswer::Content(Ok(bytes)) => if valid_utf8(bytes@) {
            OpenNext::Start(decode_utf8(bytes@))
        } else {
            OpenNext::Refuse(protocol_error("Failed to convert bytes to string"@))
        },
    }
}

/// The message that tells the editor of a change in a file.
pub open spec fn edit_message(
    base_dir: Seq<char>,
    file_path: Seq<char>,
    delta: RevisionedEditorTextDelta,
) -> types::MessageToEditorView {
    types::MessageToEditorView::Edit { uri: uri::file_uri(base_dir, file_path), delta }
}

/// The messages that tell the editor of these changes, in order.
pub open spec fn edit_messages(
    base_dir: Seq<char>,
    file_path: Seq<char>,
    deltas: Seq<RevisionedEditorTextDelta>,
) -> Seq<types::MessageToEditorView> {
    Seq::new(deltas.len(), |i: int| edit_message(base_dir, file_path, deltas[i]))
}

/// The messages, by the characters of their strings.
pub open spec fn object_views(objects: Seq<EditorProtocolObject>) -> Seq<
    types::MessageToEditorView,
> {
    Seq::new(objects.len(), |i: int| objects[i]@)
}

impl Reply {
    /// Nothing is sent, and the outcome is this error answer.
    pub open spec fn refuses(self, error: types::MessageErrorView) -> bool {
        self.to_editor@.len() == 0 && (self.result matches Err(e) && e@ == error)
    }

    /// These messages are sent, and the outcome is this message.
    pub open spec fn passes_on(
        self,
        to_editor: Seq<types::MessageToEditorView>,
        message: types::InsideMessageView,
    ) -> bool {
        object_views(self.to_editor@) == to_editor && (self.result matches Ok(m) && m@ == message)
    }
}

impl OutsideStep {
    /// The editor gets this error answer and nothing else.
    pub open spec fn refuses(self, error: types::MessageErrorView) -> bool {
        self matches OutsideStep::Reply(reply) && reply.refuses(error)
    }

    /// The editor gets these messages, and this message is passed on inside the daemon.
    pub open spec fn passes_on(
        self,
        to_editor: Seq<types::MessageToEditorView>,
        message: types::InsideMessageView,
    ) -> bool {
        self matches OutsideStep::Reply(reply) && reply.passes_on(to_editor, message)
    }

    /// This question is put about this file.
    pub open spec fn asks(
        self,
        question: OpenQuestion,
        file_path: Seq<char>,
        absolute_file_path: Seq<char>,
    ) -> bool {
        self matches OutsideStep::Ask(opening) && opening.question == question
            && opening.file_path@ == file_path && opening.absolute_file_path@ == absolute_file_path
    }
}

/// A message to the editor that may be missing, by the characters of its strings.
pub open spec fn object_view(object: Option<EditorProtocolObject>) -> Option<
    types::MessageToEditorView,
> {
    match object {
        Some(object) => Some(object@),
        None => None,
    }
}

/// What a message from inside the daemon does to a connection, and what is sent to the editor. A
/// change of an open file goes through the OT server of the file; cursors are passed on; other
/// messages are ignored.
pub open spec fn inside_handled<S: OtServer>(
    before: ConnectionView<S>,
    message: InsideMessage,
    after: ConnectionView<S>,
    out: Option<types::MessageToEditorView>,
) -> bool {
    match message {
        InsideMessage::Edit { file_path, delta } => if before.ot_servers.contains_key(file_path@) {
            exists|server: S, answer: RevisionedEditorTextDelta|
                {
                    &&& #[trigger] ot::crdt_change_applied(
                        before.ot_servers[file_path@],
                        delta,
                        server,
                        answer,
                    )
                    &&& after == before.with_server(file_path@, server)
                    &&& out == Some(edit_message(before.base_dir, file_path@, answer))
                }
        } else {
            after == before && out is None
        },
        InsideMessage::Cursor { cursor_id, name, file_path, ranges } => {
            &&& after == before
            &&& out == Some(
                types::MessageToEditorView::Cursor {
                    name: types::opt_view(name),
                    userid: cursor_id@,
                    uri: uri::file_uri(before.base_dir, file_path@),
                    ranges: ranges@,
                },
            )
        },
        _ => after == before && out is None,
    }
}

/// The URI that a message from the editor is about.
pub open spec fn message_uri(message: EditorProtocolMessageFromEditor) -> Seq<char> {
    match message {
        EditorProtocolMessageFromEditor::Open { uri } => uri@,
        EditorProtocolMessageFromEditor::Close { uri } => uri@,
        EditorProtocolMessageFromEditor::Edit { delta, uri } => uri@,
        EditorProtocolMessageFromEditor::Cursor { uri, ranges } => uri@,
    }
}

/// What a message from the editor does to a connection, and how its handling goes on. `user` is
/// the name of the user, if it is known.
pub open spec fn outside_handled<S: OtServer>(
    before: ConnectionView<S>,
    message: EditorProtocolMessageFromEditor,
    user: Option<Seq<char>>,
    after: ConnectionView<S>,
    step: OutsideStep,
) -> bool {
    let uri = message_uri(message);
    let file_path = uri::file_path(before.base_dir, uri);
    if !uri::is_within(before.base_dir, uri) {
        after == before && step.refuses(uri_error(before.base_dir, uri))
    } else {
        match message {
            EditorProtocolMessageFromEditor::Open { .. } => {
                &&& after == before
                &&& step.asks(
                    OpenQuestion::Exists,
                    file_path,
                    uri::absolute_path(before.base_dir, file_path),
                )
            },
            EditorProtocolMessageFromEditor::Close { .. } => {
                &&& after == before.without_server(file_path)
                &&& step.passes_on(Seq::empty(), types::InsideMessageView::Close { file_path })
            },
            EditorProtocolMessageFromEditor::Edit { delta: rev_delta, .. } => {
                if !before.ot_servers.contains_key(file_path) {
                    after == before && step.refuses(not_open_error())
                } else {
                    exists|server: S, delta: TextDelta, answers: Seq<RevisionedEditorTextDelta>|
                        {
                            &&& #[trigger] ot::editor_operation_applied(
                                before.ot_servers[file_path],
                                rev_delta,
                                server,
                                delta,
                                answers,
                            )
                            &&& after == before.with_server(file_path, server)
                            &&& step.passes_on(
                                edit_messages(before.base_dir, file_path, answers),
                                types::InsideMessageView::Edit { file_path, delta },
                            )
                        }
                }
            },
            EditorProtocolMessageFromEditor::Cursor { ranges, .. } => {
                &&& after == before
                &&& step.passes_on(
                    Seq::empty(),
                    types::InsideMessageView::Cursor {
                        cursor_id: before.id,
                        name: user,
                        file_path,
                        ranges: ranges@,
                    },
                )
            },
        }
    }
}

/// The file has an OT server that starts with this text.
pub open spec fn file_opened<S: OtServer>(
    before: ConnectionView<S>,
    file_path: Seq<char>,
    text: Seq<char>,
    after: ConnectionView<S>,
) -> bool {
    exists|server: S|
        #[trigger] ot::started(text, server) && after == before.with_server(file_path, server)
}

/// What an answer about a file that is being opened does to a connection, and how the opening
/// goes on.
pub open spec fn open_continued<S: OtServer>(
    before: ConnectionView<S>,
    opening: Opening,
    answer: OpenAnswer,
    after: ConnectionView<S>,
    step: OutsideStep,
) -> bool {
    match open_next(opening.absolute_file_path@, answer) {
        OpenNext::Ask(question) => after == before && step.asks(
            question,
            opening.file_path@,
            opening.absolute_file_path@,
        ),
        OpenNext::Refuse(error) => after == before && step.refuses(error),
        OpenNext::Start(text) => {
            &&& file_opened(before, opening.file_path@, text, after)
            &&& step.passes_on(
                Seq::empty(),
                types::InsideMessageView::Open { file_path: opening.file_path@ },
            )
        },
    }
}

/// How `Debug` of `std::path::Path` writes a path.
pub uninterp spec fn debug_path_text(path: Seq<char>) -> Seq<char>;

/// `<std::path::Path as Debug>::fmt`: the path in quotation marks, with the characters escaped
/// that `Debug` escapes. Which these are is left unsaid.
#[verifier::external_body]
fn debug_path(path: &str) -> (r: String)
    ensures
        r@ == debug_path_text(path@),
{
    format!("{:?}", std::path::Path::new(path))
}

fn make_protocol_error(description: String) -> (r: EditorProtocolMessageError)
    ensures
        r@ == protocol_error(description@),
{
    EditorProtocolMessageError { code: -1, message: description, data: None }
}

fn make_uri_error(base_dir: &str, uri: &str) -> (r: EditorProtocolMessageError)
    requires
        !uri::is_within(base_dir@, uri@),
    ensures
        r@ == uri_error(base_dir@, uri@),
{
    let path = uri::strip_scheme(uri);
    let mut message = text::concat("Path '", path);
    if !text::starts_with(path, '/') {
        message.append("' is not an absolute file:// URI");
    } else {
        message.append("' is not within base dir '");
        message.append(base_dir);
        message.append("/'");
    }
    make_protocol_error(message)
}

/// The error answer for the opening of an ignored file whose path is quoted like this.
pub fn make_ignored_error(quoted: &str) -> (r: EditorProtocolMessageError)
    ensures
        r@ == quoted_ignored_error(quoted@),
{
    let mut message = text::concat("File '", quoted);
    message.append("' is ignored");
    EditorProtocolMessageError {
        code: -1,
        message,
        data: Some("This file should not be shared with other peers".to_owned()),
    }
}

/// What went wrong with a message from inside the daemon. `sent` says whether what it had for
/// the editor was sent; it is `None` if there was nothing to send.
pub open spec fn inside_failure(sent: Option<bool>) -> Option<Seq<char>> {
    if sent == Some(false) {
        Some(send_failure())
    } else {
        None
    }
}

/// The outcome of a message from inside the daemon, once what it had for the editor has been
/// sent, or could not be. `sent` is `None` if there was nothing to send.
pub fn finish_inside(sent: Option<bool>) -> (r: Result<(), String>)
    ensures
        r is Err <==> sent == Some(false),
        r matches Err(description) ==> inside_failure(sent) == Some(description@),
{
    match sent {
        Some(false) => Err(
            "Failed to send message to editor. It probably has disconnected.".to_owned(),
        ),
        _ => Ok(()),
    }
}

fn refusal(error: EditorProtocolMessageError) -> (r: OutsideStep)
    ensures
        r.refuses(error@),
{
    OutsideStep::Reply(Reply { to_editor: Vec::new(), result: Err(error) })
}

fn acceptance(message: InsideMessage) -> (r: OutsideStep)
    ensures
        r.passes_on(Seq::empty(), message@),
{
    let to_editor: Vec<EditorProtocolObject> = Vec::new();
    assert(object_views(to_editor@) =~= Seq::empty());
    OutsideStep::Reply(Reply { to_editor, result: Ok(message) })
}

impl Reply {
    /// The outcome once the messages to the editor have been sent, or one could not be.
    pub fn finish(self, all_sent: bool) -> (r: Result<InsideMessage, EditorProtocolMessageError>)
        ensures
            all_sent ==> r == self.result,
            !all_sent ==> (r matches Err(e) && e@ == send_error()),
    {
        if all_sent {
            self.result
        } else {
            Err(
                make_protocol_error(
                    "Failed to send message to editor. It probably has disconnected.".to_owned(),
                ),
            )
        }
    }
}

impl<S: OtServer> EditorConnection<S> {
    /// A connection without an open file.
    pub fn new(id: String, base_dir: &str) -> (r: Self)
        ensures
            r@ == (ConnectionView {
                id: id@,
                base_dir: base_dir@,
                ot_servers: Map::<Seq<char>, S>::empty(),
            }),
    {
        EditorConnection { id, base_dir: base_dir.to_owned(), ot_servers: FileMap::new() }
    }

    /// Whether the editor has the file open.
    pub fn owns(&self, file_path: &str) -> (r: bool)
        ensures
            r == self@.ot_servers.contains_key(file_path@),
    {
        self.ot_servers.contains_key(file_path)
    }

    /// Takes in a message from inside the daemon. Returns what to send to the editor, if
    /// anything.
    pub fn message_from_inside(&mut self, message: &InsideMessage) -> (r: Option<
        EditorProtocolObject,
    >)
        ensures
            inside_handled(old(self)@, *message, final(self)@, object_view(r)),
    {
        match message {
            InsideMessage::Edit { file_path, delta } => {
                match self.ot_servers.remove(file_path.as_str()) {
                    None => {
                        assert(self@.ot_servers =~= old(self)@.ot_servers);
                        None
                    },
                    Some(server) => {
                        let (server, answer) = server.apply_crdt_change(delta);
                        self.ot_servers.insert(file_path.clone(), server);
                        proof {
                            let changed = old(self)@.with_server(file_path@, server);
                            assert(self@.ot_servers =~= changed.ot_servers);
                            assert(ot::crdt_change_applied(
                                old(self)@.ot_servers[file_path@],
                                *delta,
                                server,
                                answer,
                            ));
                        }
                        Some(self.make_edit_message(answer, file_path.as_str()))
                    },
                }
            },
            InsideMessage::Cursor { cursor_id, name, file_path, ranges } => {
                let message = EditorProtocolMessageToEditor::Cursor {
                    name: name.clone(),
                    userid: cursor_id.clone(),
                    uri: uri::uri_for_file_path(self.base_dir.as_str(), file_path.as_str()),
                    ranges: ranges.clone(),
                };
                proof {
                    assert(message->ranges@ =~= ranges@);
                }
                Some(EditorProtocolObject::Request(message))
            },
            _ => None,
        }
    }

    /// Takes in a message from the editor. `user` is the name of the user, if it is known.
    pub fn message_from_outside(
        &mut self,
        message: &EditorProtocolMessageFromEditor,
        user: Option<String>,
    ) -> (r: OutsideStep)
        ensures
            outside_handled(old(self)@, *message, types::opt_view(user), final(self)@, r),
    {
        let uri = match message {
            EditorProtocolMessageFromEditor::Open { uri } => uri,
            EditorProtocolMessageFromEditor::Close { uri } => uri,
            EditorProtocolMessageFromEditor::Edit { delta, uri } => uri,
            EditorProtocolMessageFromEditor::Cursor { uri, ranges } => uri,
        };
        let file_path = match self.file_path_for_uri(uri.as_str()) {
            Ok(file_path) => file_path,
            Err(error) => {
                return refusal(error);
            },
        };
        match message {
            EditorProtocolMessageFromEditor::Open { uri } => {
                let absolute_file_path = self.absolute_path_for_file_path(file_path.as_str());
                OutsideStep::Ask(
                    Opening { file_path, absolute_file_path, question: OpenQuestion::Exists },
                )
            },
            EditorProtocolMessageFromEditor::Close { uri } => {
                let _ = self.ot_servers.remove(file_path.as_str());
                acceptance(InsideMessage::Close { file_path })
            },
            EditorProtocolMessageFromEditor::Edit { delta: rev_delta, uri } => {
                match self.ot_servers.remove(file_path.as_str()) {
                    None => {
                        assert(self@.ot_servers =~= old(self)@.ot_servers);
                        refusal(
                            EditorProtocolMessageError {
                                code: -1,
                                message: "File not found".to_owned(),
                                data: Some(
                                    "Please stop sending edits for this file or 'open' it before.".to_owned(),
                                ),
                            },
                        )
                    },
                    Some(server) => {
                        let (server, (delta, answers)) = server.apply_editor_operation(rev_delta);
                        self.ot_servers.insert(file_path.clone(), server);
                        proof {
                            let changed = old(self)@.with_server(file_path@, server);
                            assert(self@.ot_servers =~= changed.ot_servers);
                            assert(ot::editor_operation_applied(
                                old(self)@.ot_servers[file_path@],
                                *rev_delta,
                                server,
                                delta,
                                answers@,
                            ));
                        }
                        let to_editor = self.make_edit_messages(answers, file_path.as_str());
                        OutsideStep::Reply(
                            Reply {
                                to_editor,
                                result: Ok(InsideMessage::Edit { file_path, delta }),
                            },
                        )
                    },
                }
            },
            EditorProtocolMessageFromEditor::Cursor { uri, ranges } => {
                let message = InsideMessage::Cursor {
                    cursor_id: self.id.clone(),
                    name: user,
                    file_path,
                    ranges: ranges.clone(),
                };
                proof {
                    assert(message->ranges@ =~= ranges@);
                }
                acceptance(message)
            },
        }
    }

    /// Goes on with the opening of a file after the question about it was answered.
    pub fn continue_open(&mut self, opening: Opening, answer: OpenAnswer) -> (r: OutsideStep)
        requires
            answer.answers(opening.question),
        ensures
            open_continued(old(self)@, opening, answer, final(self)@, r),
    {
        let question = match answer {
            OpenAnswer::Exists(Err(description)) => {
                return refusal(make_protocol_error(description));
            },
            // Creating nonexisting files allows us to traverse this file for whether it's
            // ignored, which is needed to even be allowed to open it.
            OpenAnswer::Exists(Ok(false)) => OpenQuestion::CreateEmpty,
            OpenAnswer::Exists(Ok(true)) => OpenQuestion::IsIgnored,
            OpenAnswer::Created(Err(description)) => {
                return refusal(make_protocol_error(description));
            },
            OpenAnswer::Created(Ok(_)) => OpenQuestion::IsIgnored,
            OpenAnswer::Ignored(true) => {
                let quoted = debug_path(opening.absolute_file_path.as_str());
                return refusal(make_ignored_error(quoted.as_str()));
            },
            OpenAnswer::Ignored(false) => OpenQuestion::Read,
            OpenAnswer::Content(Err(description)) => {
                return refusal(make_protocol_error(description));
            },
            OpenAnswer::Content(Ok(bytes)) => {
                match text::from_utf8(bytes.as_slice()) {
                    None => {
                        return refusal(
                            make_protocol_error("Failed to convert bytes to string".to_owned()),
                        );
                    },
                    Some(content) => {
                        let server = S::new(content.to_owned());
                        let ghost text = content@;
                        assert(ot::started(text, server));
                        self.ot_servers.insert(opening.file_path.clone(), server);
                        assert(file_opened(old(self)@, opening.file_path@, text, self@));
                        return acceptance(InsideMessage::Open { file_path: opening.file_path });
                    },
                }
            },
        };
        OutsideStep::Ask(
            Opening {
                file_path: opening.file_path,
                absolute_file_path: opening.absolute_file_path,
                question,
            },
        )
    }

    /// The message that tells the editor of a change in a file.
    fn make_edit_message(&self, rev_delta: RevisionedEditorTextDelta, file_path: &str) -> (r:
        EditorProtocolObject)
        ensures
            r@ == edit_message(self@.base_dir, file_path@, rev_delta),
    {
        EditorProtocolObject::Request(
            EditorProtocolMessageToEditor::Edit {
                uri: uri::uri_for_file_path(self.base_dir.as_str(), file_path),
                delta: rev_delta,
            },
        )
    }

    /// The messages that tell the editor of changes in a file.
    fn make_edit_messages(
        &self,
        rev_deltas: Vec<RevisionedEditorTextDelta>,
        file_path: &str,
    ) -> (r: Vec<EditorProtocolObject>)
        ensures
            object_views(r@) == edit_messages(self@.base_dir, file_path@, rev_deltas@),
    {
        let ghost all = rev_deltas@;
        let mut messages: Vec<EditorProtocolObject> = Vec::new();
        for rev_delta in iter: rev_deltas
            invariant
                iter.seq() == all,
                object_views(messages@) == edit_messages(
                    self@.base_dir,
                    file_path@,
                    all.take(iter.index() as int),
                ),
        {
            let ghost before = messages@;
            let ghost i = iter.index() as int;
            assert(rev_delta == all[i]);
            messages.push(self.make_edit_message(rev_delta, file_path));
            assert(object_views(messages@) =~= object_views(before).push(
                edit_message(self@.base_dir, file_path@, all[i]),
            ));
            assert(object_views(messages@) =~= edit_messages(
                self@.base_dir,
                file_path@,
                all.take(i + 1),
            ));
        }
        assert(all.take(all.len() as int) =~= all);
        messages
    }

    /// The absolute path of a file path.
    pub fn absolute_path_for_file_path(&self, file_path: &str) -> (r: String)
        ensures
            r@ == uri::absolute_path(self@.base_dir, file_path@),
    {
        uri::absolute_path_for_file_path(self.base_dir.as_str(), file_path)
    }

    /// The file path that a URI names, or the error answer.
    pub fn file_path_for_uri(&self, uri: &str) -> (r: Result<String, EditorProtocolMessageError>)
        ensures
            match r {
                Ok(path) => uri::is_within(self@.base_dir, uri@) && path@ == uri::file_path(
                    self@.base_dir,
                    uri@,
                ),
                Err(error) => !uri::is_within(self@.base_dir, uri@) && error@ == uri_error(
                    self@.base_dir,
                    uri@,
                ),
            },
    {
        match uri::relative_file_path(self.base_dir.as_str(), uri) {
            Ok(path) => Ok(path),
            Err(_) => Err(make_uri_error(self.base_dir.as_str(), uri)),
        }
    }
}

/// A connection keeps its name and base directory. A message from inside the daemon does not
/// change which files are open.
pub proof fn law_inside_keeps_ownership<S: OtServer>(
    before: ConnectionView<S>,
    message: InsideMessage,
    after: ConnectionView<S>,
    out: Option<types::MessageToEditorView>,
)
    requires
        inside_handled(before, message, after, out),
    ensures
        after.id == before.id,
        after.base_dir == before.base_dir,
        after.ot_servers.dom() == before.ot_servers.dom(),
{
    assert(after.ot_servers.dom() =~= before.ot_servers.dom());
}

/// A message from inside the daemon fails exactly if it has something for the editor, a cursor
/// or a change of an open file, and that could not be sent. The failure is always described in
/// the same words, and changes nothing in which files are open.
pub proof fn law_inside_outcome<S: OtServer>(
    before: ConnectionView<S>,
    message: InsideMessage,
    after: ConnectionView<S>,
    out: Option<types::MessageToEditorView>,
    sent: Option<bool>,
)
    requires
        inside_handled(before, message, after, out),
        sent is Some <==> out is Some,
    ensures
        inside_failure(sent) is Some <==> {
            &&& match message {
                InsideMessage::Cursor { .. } => true,
                InsideMessage::Edit { file_path, .. } => before.ot_servers.contains_key(file_path@),
                _ => false,
            }
            &&& !sent->0
        },
        inside_failure(sent) matches Some(description) ==> description
            == "Failed to send message to editor. It probably has disconnected."@,
        forall|path: Seq<char>| #[trigger]
            after.ot_servers.contains_key(path) == before.ot_servers.contains_key(path),
{
    law_inside_keeps_ownership(before, message, after, out);
    assert forall|path: Seq<char>| #[trigger]
        after.ot_servers.contains_key(path) == before.ot_servers.contains_key(path) by {
        assert(after.ot_servers.dom().contains(path) == before.ot_servers.dom().contains(path));
    }
}

/// A connection keeps its name and base directory. Of the messages from the editor only a
/// `Close` changes at once which files are open, and only for its own file; of the other files
/// the OT servers stay as they are.
pub proof fn law_outside_ownership<S: OtServer>(
    before: ConnectionView<S>,
    message: EditorProtocolMessageFromEditor,
    user: Option<Seq<char>>,
    after: ConnectionView<S>,
    step: OutsideStep,
)
    requires
        outside_handled(before, message, user, after, step),
    ensures
        after.id == before.id,
        after.base_dir == before.base_dir,
        after.ot_servers.dom() == if message is Close && uri::is_within(
            before.base_dir,
            message_uri(message),
        ) {
            before.ot_servers.dom().remove(uri::file_path(before.base_dir, message_uri(message)))
        } else {
            before.ot_servers.dom()
        },
        forall|other: Seq<char>|
            other != uri::file_path(before.base_dir, message_uri(message))
                && before.ot_servers.contains_key(other) ==> #[trigger] after.ot_servers[other]
                == before.ot_servers[other],
{
    let file_path = uri::file_path(before.base_dir, message_uri(message));
    if message is Close && uri::is_within(before.base_dir, message_uri(message)) {
        assert(after.ot_servers.dom() =~= before.ot_servers.dom().remove(file_path));
    } else {
        assert(after.ot_servers.dom() =~= before.ot_servers.dom());
    }
}

/// A message that is refused changes nothing, and nothing is sent to the editor but the error
/// answer.
pub proof fn law_refused_changes_nothing<S: OtServer>(
    before: ConnectionView<S>,
    message: EditorProtocolMessageFromEditor,
    user: Option<Seq<char>>,
    after: ConnectionView<S>,
    step: OutsideStep,
)
    requires
        outside_handled(before, message, user, after, step),
        step matches OutsideStep::Reply(reply) && reply.result is Err,
    ensures
        after == before,
        step->Reply_0.to_editor@.len() == 0,
        !uri::is_within(before.base_dir, message_uri(message)) || (message is Edit
            && !before.ot_servers.contains_key(
            uri::file_path(before.base_dir, message_uri(message)),
        )),
{
}

/// A file that is closed cannot be edited: an edit that follows the `Close` is refused.
pub proof fn law_no_edit_after_close<S: OtServer>(
    open: ConnectionView<S>,
    close: EditorProtocolMessageFromEditor,
    user: Option<Seq<char>>,
    closed: ConnectionView<S>,
    close_step: OutsideStep,
    edit: EditorProtocolMessageFromEditor,
    after: ConnectionView<S>,
    edit_step: OutsideStep,
)
    requires
        close is Close,
        edit is Edit,
        message_uri(edit) == message_uri(close),
        uri::is_within(open.base_dir, message_uri(close)),
        outside_handled(open, close, user, closed, close_step),
        outside_handled(closed, edit, user, after, edit_step),
    ensures
        edit_step.refuses(not_open_error()),
        after == closed,
{
}

/// What one editor says of its cursor, another editor on the same directory is told with the
/// same ranges, under the name of the connection that it came from, and for the same file.
pub proof fn law_cursor_is_passed_on<S: OtServer>(
    from: ConnectionView<S>,
    message: EditorProtocolMessageFromEditor,
    user: Option<Seq<char>>,
    from_after: ConnectionView<S>,
    step: OutsideStep,
    to: ConnectionView<S>,
    to_after: ConnectionView<S>,
    out: Option<types::MessageToEditorView>,
)
    requires
        message is Cursor,
        outside_handled(from, message, user, from_after, step),
        step matches OutsideStep::Reply(reply) && reply.result is Ok,
        inside_handled(to, step->Reply_0.result->Ok_0, to_after, out),
        to.base_dir == from.base_dir,
    ensures
        from_after == from,
        to_after == to,
        out == Some(
            types::MessageToEditorView::Cursor {
                name: user,
                userid: from.id,
                uri: "file://"@ + uri::absolute_part(message_uri(message)),
                ranges: message->Cursor_ranges@,
            },
        ),
{
    uri::law_absolute_path_of_uri(from.base_dir, message_uri(message));
}

/// An answer about a file that is being opened opens that file or none. Other files, and the
/// rest of the connection, stay as they are.
pub proof fn law_open_ownership<S: OtServer>(
    before: ConnectionView<S>,
    opening: Opening,
    answer: OpenAnswer,
    after: ConnectionView<S>,
    step: OutsideStep,
)
    requires
        open_continued(before, opening, answer, after, step),
    ensures
        after.id == before.id,
        after.base_dir == before.base_dir,
        open_next(opening.absolute_file_path@, answer) is Start ==> after.ot_servers.dom()
            == before.ot_servers.dom().insert(opening.file_path@),
        !(open_next(opening.absolute_file_path@, answer) is Start) ==> after == before,
        forall|other: Seq<char>|
            other != opening.file_path@ && before.ot_servers.contains_key(other)
                ==> #[trigger] after.ot_servers[other] == before.ot_servers[other],
{
    if open_next(opening.absolute_file_path@, answer) is Start {
        assert(after.ot_servers.dom() =~= before.ot_servers.dom().insert(opening.file_path@));
    }
}

/// How far the opening of a file has come after these answers.
pub open spec fn opening_after(absolute_file_path: Seq<char>, answers: Seq<OpenAnswer>) -> OpenNext
    decreases answers.len(),
{
    if answers.len() == 0 {
        OpenNext::Ask(OpenQuestion::Exists)
    } else {
        match opening_after(absolute_file_path, answers.drop_last()) {
            OpenNext::Ask(question) => open_next(absolute_file_path, answers.last()),
            done => done,
        }
    }
}

/// Whether each answer is to the question that was put after the answers before it.
pub open spec fn answered_in_turn(absolute_file_path: Seq<char>, answers: Seq<OpenAnswer>) -> bool
    decreases answers.len(),
{
    answers.len() > 0 ==> {
        &&& answered_in_turn(absolute_file_path, answers.drop_last())
        &&& opening_after(absolute_file_path, answers.drop_last()) matches OpenNext::Ask(question)
            && answers.last().answers(question)
    }
}

/// Whether the answers are that the file exists or could be created, that it is not ignored, and
/// that `bytes` could be read from it, which are text.
pub open spec fn all_goes_well(answers: Seq<OpenAnswer>, bytes: Vec<u8>) -> bool {
    &&& answers.len() == 3 && answers[0] == OpenAnswer::Exists(Ok(true)) || (answers.len() == 4
        && answers[0] == OpenAnswer::Exists(Ok(false)) && (
    answers[1] matches OpenAnswer::Created(Ok(_))))
    &&& answers[answers.len() - 2] == OpenAnswer::Ignored(false)
    &&& answers.last() == OpenAnswer::Content(Ok(bytes))
    &&& valid_utf8(bytes@)
}

/// A file is opened exactly if it exists or could be created, is not ignored, and could be read
/// as text; it starts with that text. An ignored file is never read. Four questions are enough.
pub proof fn law_opening(absolute_file_path: Seq<char>, answers: Seq<OpenAnswer>)
    requires
        answered_in_turn(absolute_file_path, answers),
    ensures
        opening_after(absolute_file_path, answers) is Start <==> exists|bytes: Vec<u8>|
            all_goes_well(answers, bytes),
        forall|bytes: Vec<u8>| #[trigger]
            all_goes_well(answers, bytes) ==> opening_after(absolute_file_path, answers)
                == OpenNext::Start(decode_utf8(bytes@)),
        answers.len() > 0 && answers.last() == OpenAnswer::Ignored(true) ==> opening_after(
            absolute_file_path,
            answers,
        ) == OpenNext::Refuse(ignored_error(absolute_file_path)),
        answers.len() > 0 && answers.last() is Content ==> answers.len() >= 3 && answers[answers.len()
            - 2] == OpenAnswer::Ignored(false),
        opening_after(absolute_file_path, answers) is Ask ==> answers.len() <= 3,
        answers.len() <= 4,
{
    lemma_opening_steps(absolute_file_path, answers);
    if answers.len() > 0 {
        lemma_opening_steps(absolute_file_path, answers.drop_last());
        if answers.len() > 1 {
            let before = answers.drop_last();
            reveal_with_fuel(answered_in_turn, 2);
            lemma_opening_steps(absolute_file_path, before.drop_last());
            assert(before.last() == answers[answers.len() - 2]);
        }
    }
    if opening_after(absolute_file_path, answers) is Start {
        assert(answers.last() is Content);
        assert(all_goes_well(answers, answers.last()->Content_0->Ok_0));
    }
}

/// The answers that open a file can be given in turn: nothing else stands in the way of a file
/// that exists or could be created, is not ignored, and is text.
pub proof fn law_readable_files_are_opened(
    absolute_file_path: Seq<char>,
    answers: Seq<OpenAnswer>,
    bytes: Vec<u8>,
)
    requires
        all_goes_well(answers, bytes),
    ensures
        answered_in_turn(absolute_file_path, answers),
        opening_after(absolute_file_path, answers) == OpenNext::Start(decode_utf8(bytes@)),
{
    reveal_with_fuel(answered_in_turn, 5);
    reveal_with_fuel(opening_after, 5);
    let before_content = answers.drop_last();
    let before_ignored = before_content.drop_last();
    assert(before_content.last() == answers[answers.len() - 2]);
    assert(before_ignored.last() == answers[answers.len() - 3]);
    assert(before_ignored[0] == answers[0]);
}

/// Where the opening stands, by the question that is put.
proof fn lemma_opening_steps(absolute_file_path: Seq<char>, answers: Seq<OpenAnswer>)
    requires
        answered_in_turn(absolute_file_path, answers),
    ensures
        opening_after(absolute_file_path, answers) matches OpenNext::Ask(question) ==> match question {
            OpenQuestion::Exists => answers.len() == 0,
            OpenQuestion::CreateEmpty => answers.len() == 1 && answers[0] == OpenAnswer::Exists(
                Ok(false),
            ),
            OpenQuestion::IsIgnored => answers.len() == 1 && answers[0] == OpenAnswer::Exists(
                Ok(true),
            ) || (answers.len() == 2 && answers[0] == OpenAnswer::Exists(Ok(false)) && (
            answers[1] matches OpenAnswer::Created(Ok(_)))),
            OpenQuestion::Read => {
                &&& answers.len() == 2 && answers[0] == OpenAnswer::Exists(Ok(true)) || (
                answers.len() == 3 && answers[0] == OpenAnswer::Exists(Ok(false)) && (
                answers[1] matches OpenAnswer::Created(Ok(_))))
                &&& answers.last() == OpenAnswer::Ignored(false)
            },
        },
    decreases answers.len(),
{
    if answers.len() > 0 {
        let before = answers.drop_last();
        lemma_opening_steps(absolute_file_path, before);
        assert(before.len() > 0 ==> before[0] == answers[0]);
        assert(before.len() > 1 ==> before[1] == answers[1]);
    }
}

} // verus!

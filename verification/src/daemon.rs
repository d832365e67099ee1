//! The task that owns the shared document.
use crate::document;
use crate::document::Document;
use crate::editor_connection;
use crate::file_map::FileMap;
use crate::ot;
use crate::ot::OtServer;
use crate::random_edit;
use crate::text;
use crate::types;
use crate::types::CursorState;
use crate::types::EditorProtocolMessageFromEditor;
use crate::types::EditorProtocolMessageToEditor;
use crate::types::EditorTextDelta;
use crate::types::FileTextDelta;
use crate::types::PatchEffect;
use crate::types::Range;
use crate::types::RevisionedEditorTextDelta;
use crate::types::TextDelta;
use crate::uri;
use crate::uri::UriProblem;
use std::collections::HashSet;
use vstd::prelude::*;

pub mod laws;

verus! {

broadcast use vstd::std_specs::hash::group_hash_axioms;

/// The file that the fuzzer edits.
pub const TEST_FILE_PATH: &'static str = "text";

/// These messages are sent to the task that owns the document. `M` is what peers send each other
/// to synchronize, `T` what is known of the state of a peer.
pub enum DocMessage<M, T> {
    GetContent,
    FromEditor(EditorProtocolMessageFromEditor),
    RandomEdit,
    ReceiveSyncMessage { message: M, state: T },
    GenerateSyncMessage { state: T },
    NewEditorConnection,
    CloseEditorConnection,
}

/// What a message is called in the log.
pub open spec fn message_name<M, T>(message: DocMessage<M, T>) -> Seq<char> {
    match message {
        DocMessage::GetContent => "get content"@,
        DocMessage::FromEditor(_) => "open/close/edit/... message from editor"@,
        DocMessage::RandomEdit => "random edit"@,
        DocMessage::ReceiveSyncMessage { .. } => "<automerge internal sync rcv>"@,
        DocMessage::GenerateSyncMessage { .. } => "<automerge internal sync gen>"@,
        DocMessage::NewEditorConnection => "editor connected"@,
        DocMessage::CloseEditorConnection => "editor disconnected"@,
    }
}

impl<M, T> DocMessage<M, T> {
    /// What the message is called in the log.
    pub fn name(&self) -> (r: String)
        ensures
            r@ == message_name(*self),
    {
        match self {
            DocMessage::GetContent => "get content".to_owned(),
            DocMessage::FromEditor(_) => "open/close/edit/... message from editor".to_owned(),
            DocMessage::RandomEdit => "random edit".to_owned(),
            DocMessage::ReceiveSyncMessage { .. } => "<automerge internal sync rcv>".to_owned(),
            DocMessage::GenerateSyncMessage { .. } => "<automerge internal sync gen>".to_owned(),
            DocMessage::NewEditorConnection => "editor connected".to_owned(),
            DocMessage::CloseEditorConnection => "editor disconnected".to_owned(),
        }
    }
}

/// Tells the connected editors apart.
#[derive(Copy, Clone, Debug, PartialEq, Eq, Hash, Structural)]
pub struct EditorId(pub usize);

/// What is to be done outside of the actor, for a message that it has handled.
pub enum Effect<M, T> {
    /// Answer a `GetContent`.
    AnswerContent(Result<String, String>),
    /// Answer a `ReceiveSyncMessage`.
    AnswerSyncState(T),
    /// Answer a `GenerateSyncMessage`.
    AnswerSyncMessage(T, Option<M>),
    /// Ping those who wait for changes of the document.
    DocumentChanged,
    /// Write the text to the file, after creating the directories it is in.
    WriteFile { absolute_path: String, text: String },
    /// Send the message to all connected editors.
    SendToEditors(EditorProtocolMessageToEditor),
}

/// An effect, by the characters of its strings.
pub enum EffectView<M, T> {
    AnswerContent(Result<String, String>),
    AnswerSyncState(T),
    AnswerSyncMessage(T, Option<M>),
    DocumentChanged,
    WriteFile { absolute_path: Seq<char>, text: Seq<char> },
    SendToEditors(types::MessageToEditorView),
}

impl<M, T> View for Effect<M, T> {
    type V = EffectView<M, T>;

    open spec fn view(&self) -> EffectView<M, T> {
        match *self {
            Effect::AnswerContent(content) => EffectView::AnswerContent(content),
            Effect::AnswerSyncState(state) => EffectView::AnswerSyncState(state),
            Effect::AnswerSyncMessage(state, message) => EffectView::AnswerSyncMessage(
                state,
                message,
            ),
            Effect::DocumentChanged => EffectView::DocumentChanged,
            Effect::WriteFile { absolute_path, text } => EffectView::WriteFile {
                absolute_path: absolute_path@,
                text: text@,
            },
            Effect::SendToEditors(message) => EffectView::SendToEditors(message@),
        }
    }
}

/// The effects, by the characters of their strings.
pub open spec fn effect_views<M, T>(effects: Seq<Effect<M, T>>) -> Seq<EffectView<M, T>> {
    Seq::new(effects.len(), |i: int| effects[i]@)
}

/// What is wrong when the document does not have a file that it must have.
pub enum ActorFault {
    /// The editor has opened a file that is not in the document.
    CannotOpen { file_path: String },
    /// The file to edit is not in the document.
    NoText,
}

impl ActorFault {
    /// The fault in words.
    pub open spec fn words(self) -> Seq<char> {
        match self {
            ActorFault::CannotOpen { file_path } => "Could not open file "@ + file_path@
                + ", because it doesn't exist in the CRDT"@,
            ActorFault::NoText => "Should have initialized text before performing random edit"@,
        }
    }

    /// The fault in words.
    pub fn description(&self) -> (r: String)
        ensures
            r@ == self.words(),
    {
        match self {
            ActorFault::CannotOpen { file_path } => {
                let mut r = text::concat("Could not open file ", file_path.as_str());
                r.append(", because it doesn't exist in the CRDT");
                r
            },
            ActorFault::NoText => {
                "Should have initialized text before performing random edit".to_owned()
            },
        }
    }
}

/// Why a message from the editor cannot be handled.
#[derive(Copy, Clone, Debug, PartialEq, Eq, Structural)]
pub enum Refusal {
    /// The URI names no file in the base directory.
    Uri(UriProblem),
    /// The file is not open.
    NotOpen,
}

/// A file that was found in the base directory, and the text in it, if it could be read.
pub struct FoundEntry {
    pub path: String,
    pub is_file: bool,
    pub text: Option<String>,
}

/// This actor is responsible for applying changes to the document.
///
/// A message turns the actor into the next one, and brings effects that are carried out in
/// order.
pub struct DocumentActor<D, S> {
    /// The editors that are connected.
    pub editor_clients: HashSet<usize>,
    /// If we have an OT server for a given file, it means that the editor has ownership.
    pub ot_servers: FileMap<S>,
    /// The document is the main resource of this actor.
    pub crdt_doc: D,
    pub base_dir: String,
}

/// An actor: the connected editors, the OT server of each open file, the document, and the base
/// directory.
pub struct ActorView<D, S> {
    pub editor_clients: Set<usize>,
    pub ot_servers: Map<Seq<char>, S>,
    pub crdt_doc: D,
    pub base_dir: Seq<char>,
}

impl<D, S> View for DocumentActor<D, S> {
    type V = ActorView<D, S>;

    open spec fn view(&self) -> ActorView<D, S> {
        ActorView {
            editor_clients: self.editor_clients@,
            ot_servers: self.ot_servers@,
            crdt_doc: self.crdt_doc,
            base_dir: self.base_dir@,
        }
    }
}

impl<D, S> ActorView<D, S> {
    /// Whether the editor has the file open.
    pub open spec fn owns(self, file_path: Seq<char>) -> bool {
        self.ot_servers.contains_key(file_path)
    }

    /// The actor with `server` for the file.
    pub open spec fn with_server(self, file_path: Seq<char>, server: S) -> Self {
        ActorView { ot_servers: self.ot_servers.insert(file_path, server), ..self }
    }

    /// The actor with `doc` as the document.
    pub open spec fn with_doc(self, doc: D) -> Self {
        ActorView { crdt_doc: doc, ..self }
    }
}

/// The writing of a file whose content in the document is `content`, if there is one.
pub open spec fn write_effect<M, T>(
    base_dir: Seq<char>,
    file_path: Seq<char>,
    content: Result<String, String>,
) -> Seq<EffectView<M, T>> {
    match content {
        Ok(text) => seq![
            EffectView::WriteFile {
                absolute_path: uri::absolute_path(base_dir, file_path),
                text: text@,
            },
        ],
        Err(_) => Seq::empty(),
    }
}

/// `out` writes the file, with its content in the document, if the editor does not have it open
/// and the document has it; otherwise `out` is empty.
pub open spec fn may_write<D: Document, S>(
    actor: ActorView<D, S>,
    file_path: Seq<char>,
    out: Seq<EffectView<D::SyncMessage, D::SyncState>>,
) -> bool {
    if actor.owns(file_path) {
        out == Seq::<EffectView<D::SyncMessage, D::SyncState>>::empty()
    } else {
        exists|content: Result<String, String>|
            {
                &&& #[trigger] document::read(actor.crdt_doc, file_path, content)
                &&& out == write_effect::<D::SyncMessage, D::SyncState>(
                    actor.base_dir,
                    file_path,
                    content,
                )
            }
    }
}

/// `out` writes the files, in order, as `may_write` says of each.
pub open spec fn may_write_all<D: Document, S>(
    actor: ActorView<D, S>,
    file_paths: Seq<Seq<char>>,
    out: Seq<EffectView<D::SyncMessage, D::SyncState>>,
) -> bool
    decreases file_paths.len(),
{
    if file_paths.len() == 0 {
        out == Seq::<EffectView<D::SyncMessage, D::SyncState>>::empty()
    } else {
        exists|
            before: Seq<EffectView<D::SyncMessage, D::SyncState>>,
            last: Seq<EffectView<D::SyncMessage, D::SyncState>>,
        |
            {
                &&& may_write_all(actor, file_paths.drop_last(), before)
                &&& may_write(actor, file_paths.last(), last)
                &&& out == #[trigger] (before + last)
            }
    }
}

/// The files that are changed, each once, in the order of their first change.
pub open spec fn changed_paths(file_deltas: Seq<FileTextDelta>) -> Seq<Seq<char>>
    decreases file_deltas.len(),
{
    if file_deltas.len() == 0 {
        Seq::empty()
    } else {
        let before = changed_paths(file_deltas.drop_last());
        if before.contains(file_deltas.last().file_path@) {
            before
        } else {
            before.push(file_deltas.last().file_path@)
        }
    }
}

/// The document has been changed, the change is announced, and the file is written as
/// `may_write` says.
pub open spec fn doc_changed<D: Document, S>(
    before: ActorView<D, S>,
    delta: EditorTextDelta,
    file_path: Seq<char>,
    after: ActorView<D, S>,
    out: Seq<EffectView<D::SyncMessage, D::SyncState>>,
) -> bool {
    &&& after == before.with_doc(after.crdt_doc)
    &&& document::delta_applied(before.crdt_doc, delta, file_path, after.crdt_doc)
    &&& out.len() > 0 && out.first() == EffectView::<
        D::SyncMessage,
        D::SyncState,
    >::DocumentChanged
    &&& may_write(after, file_path, out.drop_first())
}

/// Opening a file gives it an OT server that starts with the content in the document. It fails,
/// without a change, exactly if the document has no such file.
pub open spec fn opened<D: Document, S: OtServer>(
    before: ActorView<D, S>,
    file_path: Seq<char>,
    after: ActorView<D, S>,
    success: bool,
) -> bool {
    exists|content: Result<String, String>|
        {
            &&& #[trigger] document::read(before.crdt_doc, file_path, content)
            &&& match content {
                Ok(text) => success && exists|server: S|
                    {
                        &&& #[trigger] ot::started(text@, server)
                        &&& after == before.with_server(file_path, server)
                    },
                Err(_) => !success && after == before,
            }
        }
}

/// The OT server of the file has taken in the editor's change. `ed_delta` is the change to make
/// to the document, `answers` is what to tell the editor.
pub open spec fn ot_changed<D: Document, S: OtServer>(
    before: ActorView<D, S>,
    rev_delta: RevisionedEditorTextDelta,
    file_path: Seq<char>,
    text: Seq<char>,
    after: ActorView<D, S>,
    ed_delta: EditorTextDelta,
    answers: Seq<RevisionedEditorTextDelta>,
) -> bool {
    exists|server: S, delta: TextDelta|
        {
            &&& #[trigger] ot::editor_operation_applied(
                before.ot_servers[file_path],
                rev_delta,
                server,
                delta,
                answers,
            )
            &&& document::described::<D>(delta, text, ed_delta)
            &&& after == before.with_server(file_path, server)
        }
}

/// The messages that tell the editors of these changes of a file.
pub open spec fn send_edits<M, T>(
    base_dir: Seq<char>,
    file_path: Seq<char>,
    deltas: Seq<RevisionedEditorTextDelta>,
) -> Seq<EffectView<M, T>> {
    Seq::new(
        deltas.len(),
        |i: int|
            EffectView::SendToEditors(
                editor_connection::edit_message(base_dir, file_path, deltas[i]),
            ),
    )
}

/// One change of the document was given to the OT server of its file, if there is one, and its
/// answer is sent to the editors.
pub open spec fn crdt_delta_processed<D: Document, S: OtServer>(
    before: ActorView<D, S>,
    file_delta: FileTextDelta,
    after: ActorView<D, S>,
    out: Seq<EffectView<D::SyncMessage, D::SyncState>>,
) -> bool {
    let file_path = file_delta.file_path@;
    if before.owns(file_path) {
        exists|server: S, answer: RevisionedEditorTextDelta|
            {
                &&& #[trigger] ot::crdt_change_applied(
                    before.ot_servers[file_path],
                    file_delta.delta,
                    server,
                    answer,
                )
                &&& after == before.with_server(file_path, server)
                &&& out == seq![
                    EffectView::<D::SyncMessage, D::SyncState>::SendToEditors(
                        editor_connection::edit_message(before.base_dir, file_path, answer),
                    ),
                ]
            }
    } else {
        after == before && out == Seq::<EffectView<D::SyncMessage, D::SyncState>>::empty()
    }
}

/// The changes of the document were processed in order.
pub open spec fn crdt_deltas_processed<D: Document, S: OtServer>(
    before: ActorView<D, S>,
    file_deltas: Seq<FileTextDelta>,
    after: ActorView<D, S>,
    out: Seq<EffectView<D::SyncMessage, D::SyncState>>,
) -> bool
    decreases file_deltas.len(),
{
    if file_deltas.len() == 0 {
        after == before && out == Seq::<EffectView<D::SyncMessage, D::SyncState>>::empty()
    } else {
        exists|
            middle: ActorView<D, S>,
            first: Seq<EffectView<D::SyncMessage, D::SyncState>>,
            last: Seq<EffectView<D::SyncMessage, D::SyncState>>,
        |
            {
                &&& crdt_deltas_processed(before, file_deltas.drop_last(), middle, first)
                &&& #[trigger] crdt_delta_processed(middle, file_deltas.last(), after, last)
                &&& out == #[trigger] (first + last)
            }
    }
}

/// The messages that tell the editors of cursors.
pub open spec fn send_cursors<M, T>(base_dir: Seq<char>, states: Seq<CursorState>) -> Seq<
    EffectView<M, T>,
> {
    Seq::new(
        states.len(),
        |i: int|
            EffectView::SendToEditors(
                types::MessageToEditorView::Cursor {
                    name: None,
                    userid: states[i].userid@,
                    uri: uri::file_uri(base_dir, states[i].file_path@),
                    ranges: states[i].ranges@,
                },
            ),
    )
}

/// The changes of files among the effects of patches.
pub open spec fn file_changes(effects: Seq<PatchEffect>) -> Seq<FileTextDelta>
    decreases effects.len(),
{
    if effects.len() == 0 {
        Seq::empty()
    } else {
        let before = file_changes(effects.drop_last());
        match effects.last() {
            PatchEffect::FileChange(file_delta) => before.push(file_delta),
            _ => before,
        }
    }
}

/// The changes of cursors among the effects of patches.
pub open spec fn cursor_changes(effects: Seq<PatchEffect>) -> Seq<CursorState>
    decreases effects.len(),
{
    if effects.len() == 0 {
        Seq::empty()
    } else {
        let before = cursor_changes(effects.drop_last());
        match effects.last() {
            PatchEffect::CursorChange(state) => before.push(state),
            _ => before,
        }
    }
}

/// Why the message cannot be handled: its URI must name a file in the base directory, and only
/// open files can be edited.
pub open spec fn refusal<D, S>(
    actor: ActorView<D, S>,
    message: EditorProtocolMessageFromEditor,
) -> Option<Refusal> {
    let uri = editor_connection::message_uri(message);
    match uri::problem(actor.base_dir, uri) {
        Some(problem) => Some(Refusal::Uri(problem)),
        None => if message is Edit && !actor.owns(uri::file_path(actor.base_dir, uri)) {
            Some(Refusal::NotOpen)
        } else {
            None
        },
    }
}

/// The editor's change went through the OT server into the document; what the server answers is
/// sent to the editors. It fails, without a change, exactly if the document has no such file.
pub open spec fn edited<D: Document, S: OtServer>(
    before: ActorView<D, S>,
    rev_delta: RevisionedEditorTextDelta,
    file_path: Seq<char>,
    after: ActorView<D, S>,
    out: Option<Seq<EffectView<D::SyncMessage, D::SyncState>>>,
) -> bool {
    exists|content: Result<String, String>|
        {
            &&& #[trigger] document::read(before.crdt_doc, file_path, content)
            &&& match content {
                Ok(text) => exists|
                    middle: ActorView<D, S>,
                    ed_delta: EditorTextDelta,
                    answers: Seq<RevisionedEditorTextDelta>,
                    first: Seq<EffectView<D::SyncMessage, D::SyncState>>,
                |
                    {
                        &&& #[trigger] ot_changed(
                            before,
                            rev_delta,
                            file_path,
                            text@,
                            middle,
                            ed_delta,
                            answers,
                        )
                        &&& #[trigger] doc_changed(middle, ed_delta, file_path, after, first)
                        &&& out == Some(
                            first + send_edits::<D::SyncMessage, D::SyncState>(
                                before.base_dir,
                                file_path,
                                answers,
                            ),
                        )
                    },
                Err(_) => after == before && out is None,
            }
        }
}

/// What a message from the editor does.
pub open spec fn editor_message_handled<D: Document, S: OtServer>(
    before: ActorView<D, S>,
    message: EditorProtocolMessageFromEditor,
    after: ActorView<D, S>,
    out: Option<Seq<EffectView<D::SyncMessage, D::SyncState>>>,
) -> bool {
    let file_path = uri::file_path(before.base_dir, editor_connection::message_uri(message));
    match message {
        EditorProtocolMessageFromEditor::Open { .. } => {
            &&& opened(before, file_path, after, out is Some)
            &&& out is Some ==> out->0 == Seq::<EffectView<D::SyncMessage, D::SyncState>>::empty()
        },
        EditorProtocolMessageFromEditor::Close { .. } => {
            &&& after == (ActorView { ot_servers: before.ot_servers.remove(file_path), ..before })
            &&& out == Some(Seq::<EffectView<D::SyncMessage, D::SyncState>>::empty())
        },
        EditorProtocolMessageFromEditor::Edit { delta, .. } => edited(
            before,
            delta,
            file_path,
            after,
            out,
        ),
        EditorProtocolMessageFromEditor::Cursor { ranges, .. } => {
            &&& after == before.with_doc(after.crdt_doc)
            &&& document::own_cursor_stored(before.crdt_doc, file_path, ranges, after.crdt_doc)
            &&& out == Some(seq![EffectView::<D::SyncMessage, D::SyncState>::DocumentChanged])
        },
    }
}

/// A random edit of the test file was made to the document and told to the editors. It fails,
/// without a change, exactly if the document does not have the test file.
pub open spec fn randomly_edited<D: Document, S: OtServer>(
    before: ActorView<D, S>,
    after: ActorView<D, S>,
    out: Option<Seq<EffectView<D::SyncMessage, D::SyncState>>>,
) -> bool {
    exists|content: Result<String, String>|
        {
            &&& #[trigger] document::read(before.crdt_doc, TEST_FILE_PATH@, content)
            &&& match content {
                Ok(text) => exists|
                    file_delta: FileTextDelta,
                    ed_delta: EditorTextDelta,
                    middle: ActorView<D, S>,
                    first: Seq<EffectView<D::SyncMessage, D::SyncState>>,
                    last: Seq<EffectView<D::SyncMessage, D::SyncState>>,
                |
                    {
                        &&& file_delta.file_path@ == TEST_FILE_PATH@
                        &&& random_edit::is_random_edit(text@, file_delta.delta)
                        &&& document::described::<D>(file_delta.delta, text@, ed_delta)
                        &&& #[trigger] doc_changed(
                            before,
                            ed_delta,
                            TEST_FILE_PATH@,
                            middle,
                            first,
                        )
                        &&& #[trigger] crdt_deltas_processed(
                            middle,
                            seq![file_delta],
                            after,
                            last,
                        )
                        &&& out == Some(first + last)
                    },
                Err(_) => after == before && out is None,
            }
        }
}

/// A message from a peer was taken into the document. The changed files are written or their
/// changes told to the editors, the changed cursors are told to the editors, and the new state of
/// the peer is the answer.
pub open spec fn synchronized<D: Document, S: OtServer>(
    before: ActorView<D, S>,
    message: D::SyncMessage,
    state: D::SyncState,
    after: ActorView<D, S>,
    out: Seq<EffectView<D::SyncMessage, D::SyncState>>,
) -> bool {
    exists|
        doc: D,
        new_state: D::SyncState,
        effects: Seq<PatchEffect>,
        written: Seq<EffectView<D::SyncMessage, D::SyncState>>,
        sent: Seq<EffectView<D::SyncMessage, D::SyncState>>,
    |
        {
            &&& #[trigger] document::sync_message_received(
                before.crdt_doc,
                message,
                state,
                doc,
                new_state,
                effects,
            )
            &&& #[trigger] may_write_all(
                before.with_doc(doc),
                changed_paths(file_changes(effects)),
                written,
            )
            &&& #[trigger] crdt_deltas_processed(
                before.with_doc(doc),
                file_changes(effects),
                after,
                sent,
            )
            &&& out == seq![EffectView::<D::SyncMessage, D::SyncState>::DocumentChanged] + written
                + sent + send_cursors::<D::SyncMessage, D::SyncState>(
                before.base_dir,
                cursor_changes(effects),
            ) + seq![EffectView::<D::SyncMessage, D::SyncState>::AnswerSyncState(new_state)]
        }
}

/// What a message does to the actor, and the effects that it brings; `None` if it fails.
pub open spec fn message_handled<D: Document, S: OtServer>(
    before: ActorView<D, S>,
    message: DocMessage<D::SyncMessage, D::SyncState>,
    after: ActorView<D, S>,
    out: Option<Seq<EffectView<D::SyncMessage, D::SyncState>>>,
) -> bool {
    match message {
        DocMessage::GetContent => {
            &&& after == before
            &&& exists|content: Result<String, String>|
                {
                    &&& #[trigger] document::read(before.crdt_doc, TEST_FILE_PATH@, content)
                    &&& out == Some(
                        seq![
                            EffectView::<D::SyncMessage, D::SyncState>::AnswerContent(content),
                        ],
                    )
                }
        },
        DocMessage::RandomEdit => randomly_edited(before, after, out),
        DocMessage::FromEditor(message) => editor_message_handled(before, message, after, out),
        DocMessage::ReceiveSyncMessage { message, state } => out is Some && synchronized(
            before,
            message,
            state,
            after,
            out->0,
        ),
        DocMessage::GenerateSyncMessage { state } => {
            &&& after == before.with_doc(after.crdt_doc)
            &&& exists|new_state: D::SyncState, reply: Option<D::SyncMessage>|
                {
                    &&& #[trigger] document::sync_message_generated(
                        before.crdt_doc,
                        state,
                        after.crdt_doc,
                        new_state,
                        reply,
                    )
                    &&& out == Some(
                        seq![
                            EffectView::<D::SyncMessage, D::SyncState>::AnswerSyncMessage(
                                new_state,
                                reply,
                            ),
                        ],
                    )
                }
        },
        DocMessage::NewEditorConnection => {
            &&& after == (ActorView { editor_clients: before.editor_clients.insert(0), ..before })
            &&& out == Some(Seq::<EffectView<D::SyncMessage, D::SyncState>>::empty())
        },
        DocMessage::CloseEditorConnection => {
            &&& after == (ActorView { editor_clients: before.editor_clients.remove(0), ..before })
            &&& out == Some(Seq::<EffectView<D::SyncMessage, D::SyncState>>::empty())
        },
    }
}

/// The text of a file that was found, if there is one, is set in the document.
pub open spec fn text_read<D: Document>(
    base_dir: Seq<char>,
    before: D,
    entry: FoundEntry,
    after: D,
) -> bool {
    match entry {
        FoundEntry { path, is_file: true, text: Some(text) } => document::initialized(
            before,
            text@,
            uri::file_path(base_dir, path@),
            after,
        ),
        _ => after == before,
    }
}

/// The texts that were found are set in the document, in order.
pub open spec fn texts_read<D: Document>(
    base_dir: Seq<char>,
    before: D,
    entries: Seq<FoundEntry>,
    after: D,
) -> bool
    decreases entries.len(),
{
    if entries.len() == 0 {
        after == before
    } else {
        exists|middle: D|
            {
                &&& texts_read(base_dir, before, entries.drop_last(), middle)
                &&& #[trigger] text_read(base_dir, middle, entries.last(), after)
            }
    }
}

/// The effects of an outcome, by the characters of their strings.
pub open spec fn outcome<M, T>(r: Result<Vec<Effect<M, T>>, ActorFault>) -> Option<
    Seq<EffectView<M, T>>,
> {
    match r {
        Ok(effects) => Some(effect_views(effects@)),
        Err(_) => None,
    }
}

proof fn lemma_may_write_one_more<D: Document, S>(
    actor: ActorView<D, S>,
    file_paths: Seq<Seq<char>>,
    before: Seq<EffectView<D::SyncMessage, D::SyncState>>,
    file_path: Seq<char>,
    last: Seq<EffectView<D::SyncMessage, D::SyncState>>,
)
    requires
        may_write_all(actor, file_paths, before),
        may_write(actor, file_path, last),
    ensures
        may_write_all(actor, file_paths.push(file_path), before + last),
{
    let more = file_paths.push(file_path);
    assert(more.drop_last() =~= file_paths);
    assert(may_write_all(actor, more.drop_last(), before));
    assert(may_write(actor, more.last(), last));
}

/// Whether the path is among the paths.
fn contains(paths: &Vec<&str>, path: &str) -> (r: bool)
    ensures
        r == str_views(paths@).contains(path@),
{
    let mut i: usize = 0;
    while i < paths.len()
        invariant
            i <= paths@.len(),
            forall|j: int| 0 <= j < i ==> str_views(paths@)[j] != path@,
        decreases paths@.len() - i,
    {
        if text::same(paths[i], path) {
            assert(str_views(paths@)[i as int] == path@);
            return true;
        }
        i = i + 1;
    }
    false
}

/// The characters of each string.
pub open spec fn str_views(strings: Seq<&str>) -> Seq<Seq<char>> {
    Seq::new(strings.len(), |i: int| strings[i]@)
}

impl<D: Document, S: OtServer> DocumentActor<D, S> {
    /// An actor without an editor, and without an open file.
    pub fn new(crdt_doc: D, base_dir: &str) -> (r: Self)
        ensures
            r@ == (ActorView {
                editor_clients: Set::<usize>::empty(),
                ot_servers: Map::<Seq<char>, S>::empty(),
                crdt_doc,
                base_dir: base_dir@,
            }),
            r.crdt_doc == crdt_doc,
            r.base_dir@ == base_dir@,
    {
        DocumentActor {
            editor_clients: HashSet::new(),
            ot_servers: FileMap::new(),
            crdt_doc,
            base_dir: base_dir.to_owned(),
        }
    }

    /// The file path that a URI names.
    pub fn file_path_for_uri(&self, uri: &str) -> (r: String)
        requires
            uri::is_within(self@.base_dir, uri@),
        ensures
            r@ == uri::file_path(self@.base_dir, uri@),
    {
        uri::relative_file_path(self.base_dir.as_str(), uri).ok().unwrap()
    }

    /// What is wrong with a URI, if anything is.
    pub fn uri_problem(&self, uri: &str) -> (r: Option<UriProblem>)
        ensures
            r == uri::problem(self@.base_dir, uri@),
    {
        proof {
            uri::law_problem(self@.base_dir, uri@);
        }
        match uri::relative_file_path(self.base_dir.as_str(), uri) {
            Ok(_) => None,
            Err(problem) => Some(problem),
        }
    }

    /// The absolute path of a file path.
    pub fn absolute_path_for_file_path(&self, file_path: &str) -> (r: String)
        ensures
            r@ == uri::absolute_path(self@.base_dir, file_path@),
    {
        uri::absolute_path_for_file_path(self.base_dir.as_str(), file_path)
    }

    /// The text of a file in the document, or why there is none.
    pub fn current_file_content(&self, file_path: &str) -> (r: Result<String, String>)
        ensures
            document::read(self@.crdt_doc, file_path@, r),
            call_ensures(D::current_file_content, (&self.crdt_doc, file_path), r),
    {
        self.crdt_doc.current_file_content(file_path)
    }

    /// Writes the file, but only if the editor *doesn't* have the file open.
    pub fn maybe_write_file(&self, file_path: &str) -> (r: Vec<
        Effect<D::SyncMessage, D::SyncState>,
    >)
        ensures
            may_write(self@, file_path@, effect_views(r@)),
    {
        let mut effects: Vec<Effect<D::SyncMessage, D::SyncState>> = Vec::new();
        assert(effect_views(effects@) =~= Seq::empty());
        if !self.ot_servers.contains_key(file_path) {
            let content = self.current_file_content(file_path);
            let ghost given = content;
            if let Ok(text) = content {
                effects.push(
                    Effect::WriteFile {
                        absolute_path: self.absolute_path_for_file_path(file_path),
                        text,
                    },
                );
            }
            assert(effect_views(effects@) =~= write_effect(self@.base_dir, file_path@, given));
        }
        effects
    }

    /// Writes the files that have changed, as `maybe_write_file` does, but each only once.
    pub fn maybe_write_files_changed_in_file_deltas(&self, file_deltas: &Vec<FileTextDelta>) -> (r:
        Vec<Effect<D::SyncMessage, D::SyncState>>)
        ensures
            may_write_all(self@, changed_paths(file_deltas@), effect_views(r@)),
    {
        let mut effects: Vec<Effect<D::SyncMessage, D::SyncState>> = Vec::new();
        let mut file_paths: Vec<&str> = Vec::new();
        let mut i: usize = 0;
        assert(effect_views(effects@) =~= Seq::empty());
        assert(str_views(file_paths@) =~= changed_paths(file_deltas@.take(0)));
        while i < file_deltas.len()
            invariant
                i <= file_deltas@.len(),
                str_views(file_paths@) == changed_paths(file_deltas@.take(i as int)),
                may_write_all(self@, str_views(file_paths@), effect_views(effects@)),
            decreases file_deltas@.len() - i,
        {
            let file_path = file_deltas[i].file_path.as_str();
            let ghost seen = str_views(file_paths@);
            let ghost before = effect_views(effects@);
            proof {
                assert(file_deltas@.take(i + 1).drop_last() =~= file_deltas@.take(i as int));
                assert(file_deltas@.take(i + 1).last() == file_deltas@[i as int]);
            }
            if !contains(&file_paths, file_path) {
                file_paths.push(file_path);
                let mut more = self.maybe_write_file(file_path);
                let ghost last = effect_views(more@);
                effects.append(&mut more);
                proof {
                    assert(str_views(file_paths@) =~= seen.push(file_path@));
                    assert(effect_views(effects@) =~= before + last);
                    lemma_may_write_one_more(self@, seen, before, file_path@, last);
                }
            }
            i = i + 1;
        }
        assert(file_deltas@.take(i as int) =~= file_deltas@);
        effects
    }

    /// Changes a file in the document.
    pub fn apply_delta_to_doc(self, delta: &EditorTextDelta, file_path: &str) -> (r: (
        Self,
        Vec<Effect<D::SyncMessage, D::SyncState>>,
    ))
        ensures
            doc_changed(self@, *delta, file_path@, r.0@, effect_views(r.1@)),
            call_ensures(D::apply_delta_to_doc, (self.crdt_doc, delta, file_path), r.0.crdt_doc),
    {
        let ghost before = self@;
        let crdt_doc = self.crdt_doc.apply_delta_to_doc(delta, file_path);
        let actor = DocumentActor {
            editor_clients: self.editor_clients,
            ot_servers: self.ot_servers,
            crdt_doc,
            base_dir: self.base_dir,
        };
        let mut effects: Vec<Effect<D::SyncMessage, D::SyncState>> = Vec::new();
        effects.push(Effect::DocumentChanged);
        let mut more = actor.maybe_write_file(file_path);
        let ghost last = effect_views(more@);
        effects.append(&mut more);
        assert(effect_views(effects@).drop_first() =~= last);
        (actor, effects)
    }

    /// Gives ownership of a file to the editor.
    pub fn open_file_path(self, file_path: String) -> (r: (Self, Result<(), ActorFault>))
        ensures
            opened(self@, file_path@, r.0@, r.1 is Ok),
            r.1 matches Err(fault) ==> (fault matches ActorFault::CannotOpen { file_path: path }
                && path@ == file_path@),
    {
        let content = self.current_file_content(file_path.as_str());
        let ghost given = content;
        assert(document::read(self@.crdt_doc, file_path@, given));
        match content {
            Err(_) => (self, Err(ActorFault::CannotOpen { file_path })),
            Ok(text) => {
                let ghost view = text@;
                let ghost before = self@;
                let ghost path = file_path@;
                let server = S::new(text);
                let mut actor = self;
                actor.ot_servers.insert(file_path, server);
                assert(ot::started(view, server));
                assert(actor@ == before.with_server(path, server));
                (actor, Ok(()))
            },
        }
    }

    /// Gives a change by the editor to the OT server of the file. Returns the change to make to
    /// the document, and what to tell the editors.
    pub fn apply_delta_to_ot(self, rev_delta: &RevisionedEditorTextDelta, file_path: &str) -> (r: (
        Self,
        Result<(EditorTextDelta, Vec<RevisionedEditorTextDelta>), ActorFault>,
    ))
        requires
            self@.owns(file_path@),
        ensures
            exists|content: Result<String, String>|
                {
                    &&& #[trigger] document::read(self@.crdt_doc, file_path@, content)
                    &&& match content {
                        Ok(text) => r.1 matches Ok((ed_delta, answers)) && ot_changed(
                            self@,
                            *rev_delta,
                            file_path@,
                            text@,
                            r.0@,
                            ed_delta,
                            answers@,
                        ),
                        Err(_) => r.1 matches Err(ActorFault::NoText) && r.0@ == self@,
                    }
                },
    {
        let content = self.current_file_content(file_path);
        let ghost given = content;
        assert(document::read(self@.crdt_doc, file_path@, given));
        match content {
            Err(_) => (self, Err(ActorFault::NoText)),
            Ok(text) => {
                let ghost before = self@;
                let mut actor = self;
                let server = actor.ot_servers.remove(file_path).unwrap();
                let (server, (delta, answers)) = server.apply_editor_operation(rev_delta);
                actor.ot_servers.insert(file_path.to_owned(), server);
                let ed_delta = D::editor_delta(&delta, text.as_str());
                proof {
                    assert(actor@.ot_servers =~= before.with_server(file_path@, server).ot_servers);
                    assert(ot::editor_operation_applied(
                        before.ot_servers[file_path@],
                        *rev_delta,
                        server,
                        delta,
                        answers@,
                    ));
                    assert(document::described::<D>(delta, text@, ed_delta));
                }
                (actor, Ok((ed_delta, answers)))
            },
        }
    }

    /// The message that tells the editors of a change in a file.
    fn edit_effect(&self, rev_delta: RevisionedEditorTextDelta, file_path: &str) -> (r: Effect<
        D::SyncMessage,
        D::SyncState,
    >)
        ensures
            r@ == EffectView::<D::SyncMessage, D::SyncState>::SendToEditors(
                editor_connection::edit_message(self@.base_dir, file_path@, rev_delta),
            ),
    {
        Effect::SendToEditors(
            EditorProtocolMessageToEditor::Edit {
                uri: uri::uri_for_file_path(self.base_dir.as_str(), file_path),
                delta: rev_delta,
            },
        )
    }

    /// The messages that tell the editors of changes in a file.
    pub fn send_deltas_to_editor(
        &self,
        rev_deltas: Vec<RevisionedEditorTextDelta>,
        file_path: &str,
    ) -> (r: Vec<Effect<D::SyncMessage, D::SyncState>>)
        ensures
            effect_views(r@) == send_edits::<D::SyncMessage, D::SyncState>(
                self@.base_dir,
                file_path@,
                rev_deltas@,
            ),
            r@.len() == rev_deltas@.len(),
            forall|i: int|
                0 <= i < r@.len() ==> ({
                    &&& #[trigger] r@[i] matches Effect::SendToEditors(
                        EditorProtocolMessageToEditor::Edit { uri, delta },
                    )
                    &&& uri@ == "file://"@ + (self@.base_dir + "/"@ + file_path@)
                    &&& delta == rev_deltas@[i]
                }),
    {
        let ghost all = rev_deltas@;
        let mut effects: Vec<Effect<D::SyncMessage, D::SyncState>> = Vec::new();
        for rev_delta in iter: rev_deltas
            invariant
                iter.seq() == all,
                effect_views(effects@) == send_edits::<D::SyncMessage, D::SyncState>(
                    self@.base_dir,
                    file_path@,
                    all.take(iter.index() as int),
                ),
        {
            let ghost before = effects@;
            let ghost i = iter.index() as int;
            assert(rev_delta == all[i]);
            let effect = self.edit_effect(rev_delta, file_path);
            let ghost view = effect@;
            effects.push(effect);
            assert(effect_views(effects@) =~= effect_views(before).push(view));
            assert(effect_views(effects@) =~= send_edits::<D::SyncMessage, D::SyncState>(
                self@.base_dir,
                file_path@,
                all.take(i + 1),
            ));
        }
        assert(all.take(all.len() as int) =~= all);
        proof {
            assert(effect_views(effects@).len() == all.len());
            assert forall|i: int| 0 <= i < effects@.len() implies ({
                &&& #[trigger] effects@[i] matches Effect::SendToEditors(
                    EditorProtocolMessageToEditor::Edit { uri, delta },
                )
                &&& uri@ == "file://"@ + (self@.base_dir + "/"@ + file_path@)
                &&& delta == all[i]
            }) by {
                assert(effect_views(effects@)[i] == effects@[i]@);
            }
        }
        effects
    }

    /// Gives changes of the document to the OT servers, but only of the files that the editor has
    /// open, and tells the editors.
    pub fn maybe_process_crdt_file_deltas_in_ot(self, file_deltas: Vec<FileTextDelta>) -> (r: (
        Self,
        Vec<Effect<D::SyncMessage, D::SyncState>>,
    ))
        ensures
            crdt_deltas_processed(self@, file_deltas@, r.0@, effect_views(r.1@)),
    {
        let ghost before = self@;
        let ghost all = file_deltas@;
        let mut actor = self;
        let mut effects: Vec<Effect<D::SyncMessage, D::SyncState>> = Vec::new();
        assert(effect_views(effects@) =~= Seq::empty());
        for file_delta in iter: file_deltas
            invariant
                iter.seq() == all,
                crdt_deltas_processed(
                    before,
                    all.take(iter.index() as int),
                    actor@,
                    effect_views(effects@),
                ),
        {
            let ghost i = iter.index() as int;
            let ghost middle = actor@;
            let ghost first = effect_views(effects@);
            let ghost mut last: Seq<EffectView<D::SyncMessage, D::SyncState>> = Seq::empty();
            assert(file_delta == all[i]);
            let FileTextDelta { file_path, delta } = file_delta;
            match actor.ot_servers.remove(file_path.as_str()) {
                None => {
                    assert(actor@.ot_servers =~= middle.ot_servers);
                    assert(effect_views(effects@) =~= first + last);
                },
                Some(server) => {
                    let (server, answer) = server.apply_crdt_change(&delta);
                    let effect = actor.edit_effect(answer, file_path.as_str());
                    let ghost path = file_path@;
                    actor.ot_servers.insert(file_path, server);
                    proof {
                        last = seq![effect@];
                        assert(ot::crdt_change_applied(
                            middle.ot_servers[path],
                            delta,
                            server,
                            answer,
                        ));
                        assert(actor@.ot_servers =~= middle.with_server(path, server).ot_servers);
                    }
                    effects.push(effect);
                    assert(effect_views(effects@) =~= first + last);
                },
            }
            proof {
                assert(crdt_delta_processed(middle, all[i], actor@, last));
                lemma_one_more_processed(
                    before,
                    all.take(i),
                    middle,
                    first,
                    all[i],
                    actor@,
                    last,
                );
                assert(all.take(i).push(all[i]) =~= all.take(i + 1));
            }
        }
        assert(all.take(all.len() as int) =~= all);
        (actor, effects)
    }

    /// The messages that tell the editors of cursors.
    pub fn process_cursor_states(&self, cursor_states: Vec<CursorState>) -> (r: Vec<
        Effect<D::SyncMessage, D::SyncState>,
    >)
        ensures
            effect_views(r@) == send_cursors::<D::SyncMessage, D::SyncState>(
                self@.base_dir,
                cursor_states@,
            ),
            r@.len() == cursor_states@.len(),
            forall|i: int|
                0 <= i < r@.len() ==> ({
                    &&& #[trigger] r@[i] matches Effect::SendToEditors(
                        EditorProtocolMessageToEditor::Cursor { name, userid, uri, ranges },
                    )
                    &&& name is None
                    &&& userid@ == cursor_states@[i].userid@
                    &&& uri@ == "file://"@ + (self@.base_dir + "/"@ + cursor_states@[i].file_path@)
                    &&& ranges@ == cursor_states@[i].ranges@
                }),
    {
        let ghost all = cursor_states@;
        let mut effects: Vec<Effect<D::SyncMessage, D::SyncState>> = Vec::new();
        for cursor_state in iter: cursor_states
            invariant
                iter.seq() == all,
                effect_views(effects@) == send_cursors::<D::SyncMessage, D::SyncState>(
                    self@.base_dir,
                    all.take(iter.index() as int),
                ),
        {
            let ghost before = effects@;
            let ghost i = iter.index() as int;
            assert(cursor_state == all[i]);
            let CursorState { userid, file_path, ranges } = cursor_state;
            let effect = Effect::SendToEditors(
                EditorProtocolMessageToEditor::Cursor {
                    name: None,
                    userid,
                    uri: uri::uri_for_file_path(self.base_dir.as_str(), file_path.as_str()),
                    ranges,
                },
            );
            let ghost view = effect@;
            effects.push(effect);
            assert(effect_views(effects@) =~= effect_views(before).push(view));
            assert(effect_views(effects@) =~= send_cursors::<D::SyncMessage, D::SyncState>(
                self@.base_dir,
                all.take(i + 1),
            ));
        }
        assert(all.take(all.len() as int) =~= all);
        proof {
            assert(effect_views(effects@).len() == all.len());
            assert forall|i: int| 0 <= i < effects@.len() implies ({
                &&& #[trigger] effects@[i] matches Effect::SendToEditors(
                    EditorProtocolMessageToEditor::Cursor { name, userid, uri, ranges },
                )
                &&& name is None
                &&& userid@ == all[i].userid@
                &&& uri@ == "file://"@ + (self@.base_dir + "/"@ + all[i].file_path@)
                &&& ranges@ == all[i].ranges@
            }) by {
                assert(effect_views(effects@)[i] == effects@[i]@);
            }
        }
        effects
    }

    /// Stores the cursors of the daemon's own user.
    pub fn store_cursor_position(self, file_path: String, ranges: Vec<Range>) -> (r: (
        Self,
        Vec<Effect<D::SyncMessage, D::SyncState>>,
    ))
        ensures
            r.0@ == self@.with_doc(r.0@.crdt_doc),
            document::own_cursor_stored(self@.crdt_doc, file_path@, ranges, r.0@.crdt_doc),
            effect_views(r.1@) == seq![
                EffectView::<D::SyncMessage, D::SyncState>::DocumentChanged,
            ],
    {
        let userid = self.crdt_doc.actor_id();
        let crdt_doc = self.crdt_doc.store_cursor_position(userid, file_path, ranges);
        let actor = DocumentActor {
            editor_clients: self.editor_clients,
            ot_servers: self.ot_servers,
            crdt_doc,
            base_dir: self.base_dir,
        };
        let mut effects: Vec<Effect<D::SyncMessage, D::SyncState>> = Vec::new();
        effects.push(Effect::DocumentChanged);
        assert(effect_views(effects@) =~= seq![
            EffectView::<D::SyncMessage, D::SyncState>::DocumentChanged,
        ]);
        (actor, effects)
    }

    /// Why a message from the editor cannot be handled, if it cannot be.
    pub fn refuses(&self, message: &EditorProtocolMessageFromEditor) -> (r: Option<Refusal>)
        ensures
            r == refusal(self@, *message),
    {
        let uri = match message {
            EditorProtocolMessageFromEditor::Open { uri } => uri,
            EditorProtocolMessageFromEditor::Close { uri } => uri,
            EditorProtocolMessageFromEditor::Edit { delta, uri } => uri,
            EditorProtocolMessageFromEditor::Cursor { uri, ranges } => uri,
        };
        proof {
            uri::law_problem(self@.base_dir, uri@);
        }
        if let Some(problem) = self.uri_problem(uri.as_str()) {
            return Some(Refusal::Uri(problem));
        }
        if let EditorProtocolMessageFromEditor::Edit { delta, uri } = message {
            let file_path = self.file_path_for_uri(uri.as_str());
            if !self.ot_servers.contains_key(file_path.as_str()) {
                return Some(Refusal::NotOpen);
            }
        }
        None
    }

    /// Handles a message from the editor.
    pub fn handle_message_from_editor(self, message: EditorProtocolMessageFromEditor) -> (r: (
        Self,
        Result<Vec<Effect<D::SyncMessage, D::SyncState>>, ActorFault>,
    ))
        requires
            refusal(self@, message) is None,
        ensures
            editor_message_handled(self@, message, r.0@, outcome(r.1)),
            r.1 matches Err(fault) ==> match message {
                EditorProtocolMessageFromEditor::Open { uri } => {
                    &&& fault matches ActorFault::CannotOpen { file_path }
                    &&& file_path@ == uri::file_path(self@.base_dir, uri@)
                },
                _ => fault is NoText,
            },
    {
        let ghost before = self@;
        let ghost given = message;
        proof {
            uri::law_problem(before.base_dir, editor_connection::message_uri(given));
        }
        match message {
            EditorProtocolMessageFromEditor::Open { uri } => {
                let file_path = self.file_path_for_uri(uri.as_str());
                let (actor, result) = self.open_file_path(file_path);
                match result {
                    Ok(_) => {
                        let effects: Vec<Effect<D::SyncMessage, D::SyncState>> = Vec::new();
                        assert(effect_views(effects@) =~= Seq::empty());
                        (actor, Ok(effects))
                    },
                    Err(fault) => (actor, Err(fault)),
                }
            },
            EditorProtocolMessageFromEditor::Close { uri } => {
                let file_path = self.file_path_for_uri(uri.as_str());
                let mut actor = self;
                let _ = actor.ot_servers.remove(file_path.as_str());
                let effects: Vec<Effect<D::SyncMessage, D::SyncState>> = Vec::new();
                assert(effect_views(effects@) =~= Seq::empty());
                (actor, Ok(effects))
            },
            EditorProtocolMessageFromEditor::Edit { delta: rev_delta, uri } => {
                let file_path = self.file_path_for_uri(uri.as_str());
                let (actor, result) = self.apply_delta_to_ot(&rev_delta, file_path.as_str());
                let ghost middle = actor@;
                match result {
                    Err(fault) => (actor, Err(fault)),
                    Ok((ed_delta, answers)) => {
                        let ghost answered = answers@;
                        let (actor, mut effects) = actor.apply_delta_to_doc(
                            &ed_delta,
                            file_path.as_str(),
                        );
                        let ghost first = effect_views(effects@);
                        let mut more = actor.send_deltas_to_editor(answers, file_path.as_str());
                        let ghost last = effect_views(more@);
                        effects.append(&mut more);
                        assert(effect_views(effects@) =~= first + last);
                        assert(doc_changed(middle, ed_delta, file_path@, actor@, first));
                        (actor, Ok(effects))
                    },
                }
            },
            EditorProtocolMessageFromEditor::Cursor { uri, ranges } => {
                let file_path = self.file_path_for_uri(uri.as_str());
                let (actor, effects) = self.store_cursor_position(file_path, ranges);
                (actor, Ok(effects))
            },
        }
    }

    /// Makes a random edit of the test file.
    pub fn apply_random_delta(self) -> (r: (
        Self,
        Result<Vec<Effect<D::SyncMessage, D::SyncState>>, ActorFault>,
    ))
        ensures
            randomly_edited(self@, r.0@, outcome(r.1)),
            r.1 matches Err(fault) ==> fault is NoText,
    {
        let ghost before = self@;
        let content = self.current_file_content(TEST_FILE_PATH);
        let ghost given = content;
        assert(document::read(self@.crdt_doc, TEST_FILE_PATH@, given));
        match content {
            Err(_) => (self, Err(ActorFault::NoText)),
            Ok(text) => {
                let delta = random_edit::random_delta(text.as_str());
                let ed_delta = D::editor_delta(&delta, text.as_str());
                assert(document::described::<D>(delta, text@, ed_delta));
                let (actor, mut effects) = self.apply_delta_to_doc(&ed_delta, TEST_FILE_PATH);
                let ghost middle = actor@;
                let ghost first = effect_views(effects@);
                let file_delta = FileTextDelta { file_path: TEST_FILE_PATH.to_owned(), delta };
                let ghost made = file_delta;
                let mut file_deltas: Vec<FileTextDelta> = Vec::new();
                file_deltas.push(file_delta);
                assert(file_deltas@ =~= seq![made]);
                let (actor, mut more) = actor.maybe_process_crdt_file_deltas_in_ot(file_deltas);
                let ghost last = effect_views(more@);
                effects.append(&mut more);
                proof {
                    assert(effect_views(effects@) =~= first + last);
                    assert(doc_changed(before, ed_delta, TEST_FILE_PATH@, middle, first));
                    assert(crdt_deltas_processed(middle, seq![made], actor@, last));
                    assert(random_edit::is_random_edit(text@, made.delta));
                }
                (actor, Ok(effects))
            },
        }
    }

    /// Takes a message from a peer into the document, and brings the files and the editors up to
    /// date.
    pub fn receive_sync_message(self, message: D::SyncMessage, state: D::SyncState) -> (r: (
        Self,
        Vec<Effect<D::SyncMessage, D::SyncState>>,
    ))
        ensures
            synchronized(self@, message, state, r.0@, effect_views(r.1@)),
    {
        let ghost before = self@;
        let (crdt_doc, (new_state, patches)) = self.crdt_doc.receive_sync_message_log_patches(
            message,
            state,
        );
        let patch_effects = D::patch_effects(patches);
        let ghost meaning = patch_effects@;
        let ghost answer = new_state;
        assert(document::sync_message_received(
            before.crdt_doc,
            message,
            state,
            crdt_doc,
            new_state,
            meaning,
        ));
        let actor = DocumentActor {
            editor_clients: self.editor_clients,
            ot_servers: self.ot_servers,
            crdt_doc,
            base_dir: self.base_dir,
        };
        let ghost middle = actor@;
        let (file_deltas, cursor_states) = split_patch_effects(patch_effects);
        let mut effects: Vec<Effect<D::SyncMessage, D::SyncState>> = Vec::new();
        effects.push(Effect::DocumentChanged);
        let mut writes = actor.maybe_write_files_changed_in_file_deltas(&file_deltas);
        let ghost written = effect_views(writes@);
        let (actor, mut edits) = actor.maybe_process_crdt_file_deltas_in_ot(file_deltas);
        let ghost sent = effect_views(edits@);
        let mut cursors = actor.process_cursor_states(cursor_states);
        proof {
            law_processing_keeps_ownership(middle, file_changes(meaning), actor@, sent);
        }
        let ghost shown = effect_views(cursors@);
        effects.append(&mut writes);
        effects.append(&mut edits);
        effects.append(&mut cursors);
        effects.push(Effect::AnswerSyncState(new_state));
        proof {
            assert(middle == before.with_doc(crdt_doc));
            assert(effect_views(effects@) =~= seq![
                EffectView::<D::SyncMessage, D::SyncState>::DocumentChanged,
            ] + written + sent + shown + seq![
                EffectView::<D::SyncMessage, D::SyncState>::AnswerSyncState(answer),
            ]);
            assert(may_write_all(
                before.with_doc(crdt_doc),
                changed_paths(file_changes(meaning)),
                written,
            ));
            assert(crdt_deltas_processed(
                before.with_doc(crdt_doc),
                file_changes(meaning),
                actor@,
                sent,
            ));
        }
        (actor, effects)
    }

    /// Makes a message to a peer.
    pub fn generate_sync_message(self, state: D::SyncState) -> (r: (
        Self,
        Vec<Effect<D::SyncMessage, D::SyncState>>,
    ))
        ensures
            r.0@ == self@.with_doc(r.0@.crdt_doc),
            exists|new_state: D::SyncState, reply: Option<D::SyncMessage>|
                {
                    &&& #[trigger] document::sync_message_generated(
                        self@.crdt_doc,
                        state,
                        r.0@.crdt_doc,
                        new_state,
                        reply,
                    )
                    &&& effect_views(r.1@) == seq![
                        EffectView::<D::SyncMessage, D::SyncState>::AnswerSyncMessage(
                            new_state,
                            reply,
                        ),
                    ]
                },
    {
        let ghost before = self@;
        let (crdt_doc, (new_state, reply)) = self.crdt_doc.generate_sync_message(state);
        let ghost answer = (new_state, reply);
        let actor = DocumentActor {
            editor_clients: self.editor_clients,
            ot_servers: self.ot_servers,
            crdt_doc,
            base_dir: self.base_dir,
        };
        let mut effects: Vec<Effect<D::SyncMessage, D::SyncState>> = Vec::new();
        effects.push(Effect::AnswerSyncMessage(new_state, reply));
        proof {
            assert(document::sync_message_generated(
                before.crdt_doc,
                state,
                crdt_doc,
                answer.0,
                answer.1,
            ));
            assert(effect_views(effects@) =~= seq![
                EffectView::<D::SyncMessage, D::SyncState>::AnswerSyncMessage(answer.0, answer.1),
            ]);
        }
        (actor, effects)
    }

    /// Handles a message. A message from the editor must not be one that is refused.
    pub fn handle_message(self, message: DocMessage<D::SyncMessage, D::SyncState>) -> (r: (
        Self,
        Result<Vec<Effect<D::SyncMessage, D::SyncState>>, ActorFault>,
    ))
        requires
            message matches DocMessage::FromEditor(from_editor) ==> refusal(self@, from_editor)
                is None,
        ensures
            message_handled(self@, message, r.0@, outcome(r.1)),
            r.1 matches Err(fault) ==> match message {
                DocMessage::FromEditor(EditorProtocolMessageFromEditor::Open { uri }) => {
                    &&& fault matches ActorFault::CannotOpen { file_path }
                    &&& file_path@ == uri::file_path(self@.base_dir, uri@)
                },
                _ => fault is NoText,
            },
    {
        let mut effects: Vec<Effect<D::SyncMessage, D::SyncState>> = Vec::new();
        assert(effect_views(effects@) =~= Seq::empty());
        match message {
            DocMessage::GetContent => {
                let content = self.current_file_content(TEST_FILE_PATH);
                let ghost given = content;
                effects.push(Effect::AnswerContent(content));
                proof {
                    assert(document::read(self@.crdt_doc, TEST_FILE_PATH@, given));
                    assert(effect_views(effects@) =~= seq![
                        EffectView::<D::SyncMessage, D::SyncState>::AnswerContent(given),
                    ]);
                }
                (self, Ok(effects))
            },
            DocMessage::RandomEdit => self.apply_random_delta(),
            DocMessage::FromEditor(message) => self.handle_message_from_editor(message),
            DocMessage::ReceiveSyncMessage { message, state } => {
                let (actor, effects) = self.receive_sync_message(message, state);
                (actor, Ok(effects))
            },
            DocMessage::GenerateSyncMessage { state } => {
                let (actor, effects) = self.generate_sync_message(state);
                (actor, Ok(effects))
            },
            DocMessage::NewEditorConnection => {
                let mut actor = self;
                actor.editor_clients.insert(0);
                (actor, Ok(effects))
            },
            DocMessage::CloseEditorConnection => {
                let mut actor = self;
                actor.editor_clients.remove(&0);
                (actor, Ok(effects))
            },
        }
    }

    /// Sets the texts that were found in the base directory in the document. Reading in the files
    /// is a preparatory step, before kicking off the actor.
    pub fn read_current_content_from_dir(self, entries: Vec<FoundEntry>) -> (r: Self)
        requires
            forall|i: int|
                0 <= i < entries@.len() && (#[trigger] entries@[i]).is_file && entries@[i].text
                    is Some ==> uri::is_within(self@.base_dir, entries@[i].path@),
        ensures
            r@ == self@.with_doc(r@.crdt_doc),
            texts_read(self@.base_dir, self@.crdt_doc, entries@, r@.crdt_doc),
    {
        let ghost before = self@;
        let ghost all = entries@;
        let mut actor = self;
        for entry in iter: entries
            invariant
                iter.seq() == all,
                forall|i: int|
                    0 <= i < all.len() && (#[trigger] all[i]).is_file && all[i].text is Some
                        ==> uri::is_within(before.base_dir, all[i].path@),
                actor@ == before.with_doc(actor@.crdt_doc),
                texts_read(
                    before.base_dir,
                    before.crdt_doc,
                    all.take(iter.index() as int),
                    actor@.crdt_doc,
                ),
        {
            let ghost i = iter.index() as int;
            let ghost middle = actor@.crdt_doc;
            assert(entry == all[i]);
            if entry.is_file {
                if let Some(text) = &entry.text {
                    let file_path = actor.file_path_for_uri(entry.path.as_str());
                    let crdt_doc = actor.crdt_doc.initialize_text(
                        text.as_str(),
                        file_path.as_str(),
                    );
                    assert(document::initialized(middle, text@, file_path@, crdt_doc));
                    actor = DocumentActor {
                        editor_clients: actor.editor_clients,
                        ot_servers: actor.ot_servers,
                        crdt_doc,
                        base_dir: actor.base_dir,
                    };
                }
            }
            proof {
                assert(text_read(before.base_dir, middle, all[i], actor@.crdt_doc));
                lemma_one_more_read(
                    before.base_dir,
                    before.crdt_doc,
                    all.take(i),
                    middle,
                    all[i],
                    actor@.crdt_doc,
                );
                assert(all.take(i).push(all[i]) =~= all.take(i + 1));
            }
        }
        assert(all.take(all.len() as int) =~= all);
        actor
    }

    /// Removes the clients that a message could not be sent to. Each outcome is an editor and
    /// whether the message reached it.
    pub fn remove_unreachable(self, outcomes: &Vec<(EditorId, bool)>) -> (r: Self)
        ensures
            r@ == (ActorView {
                editor_clients: self@.editor_clients.difference(
                    unreachable_editors(outcomes@),
                ),
                ..self@
            }),
            forall|id: usize| #[trigger]
                r@.editor_clients.contains(id) <==> self@.editor_clients.contains(id) && !(exists|
                    i: int,
                |
                    0 <= i < outcomes@.len() && #[trigger] outcomes@[i] == (EditorId(id), false)),
    {
        let ghost before = self@;
        let mut actor = self;
        let mut i: usize = 0;
        assert(actor@.editor_clients =~= before.editor_clients.difference(
            unreachable_editors(outcomes@.take(0)),
        ));
        while i < outcomes.len()
            invariant
                i <= outcomes@.len(),
                actor@ == (ActorView {
                    editor_clients: before.editor_clients.difference(
                        unreachable_editors(outcomes@.take(i as int)),
                    ),
                    ..before
                }),
            decreases outcomes@.len() - i,
        {
            let ghost unreachable = unreachable_editors(outcomes@.take(i as int));
            let (id, reached) = outcomes[i];
            proof {
                lemma_one_more_unreachable(outcomes@, i as int);
            }
            if !reached {
                actor.editor_clients.remove(&id.0);
            }
            assert(actor@.editor_clients =~= before.editor_clients.difference(
                unreachable_editors(outcomes@.take(i + 1)),
            ));
            i = i + 1;
        }
        assert(outcomes@.take(i as int) =~= outcomes@);
        proof {
            assert forall|id: usize| #[trigger]
                actor@.editor_clients.contains(id) <==> before.editor_clients.contains(id) && !(
                exists|i: int|
                    0 <= i < outcomes@.len() && #[trigger] outcomes@[i] == (
                        EditorId(id),
                        false,
                    )) by {
                let _ = outcomes@.contains((EditorId(id), false));
            }
        }
        actor
    }
}

/// The editors that a message did not reach.
pub open spec fn unreachable_editors(outcomes: Seq<(EditorId, bool)>) -> Set<usize> {
    Set::new(|id: usize| outcomes.contains((EditorId(id), false)))
}

proof fn lemma_one_more_unreachable(outcomes: Seq<(EditorId, bool)>, i: int)
    requires
        0 <= i < outcomes.len(),
    ensures
        unreachable_editors(outcomes.take(i + 1)) == if outcomes[i].1 {
            unreachable_editors(outcomes.take(i))
        } else {
            unreachable_editors(outcomes.take(i)).insert(outcomes[i].0.0)
        },
{
    let less = outcomes.take(i);
    let more = outcomes.take(i + 1);
    assert(more =~= less.push(outcomes[i]));
    assert forall|id: usize|
        more.contains((EditorId(id), false)) == (less.contains((EditorId(id), false)) || (
        !outcomes[i].1 && outcomes[i].0.0 == id)) by {
        let entry = (EditorId(id), false);
        if less.contains(entry) {
            let k = choose|k: int| 0 <= k < less.len() && less[k] == entry;
            assert(more[k] == entry);
        }
        if !outcomes[i].1 && outcomes[i].0.0 == id {
            assert(more[i] == entry);
        }
        if more.contains(entry) {
            let k = choose|k: int| 0 <= k < more.len() && more[k] == entry;
            if k < i {
                assert(less[k] == entry);
            }
        }
    }
    assert(unreachable_editors(more) =~= if outcomes[i].1 {
        unreachable_editors(less)
    } else {
        unreachable_editors(less).insert(outcomes[i].0.0)
    });
}

proof fn lemma_one_more_processed<D: Document, S: OtServer>(
    before: ActorView<D, S>,
    file_deltas: Seq<FileTextDelta>,
    middle: ActorView<D, S>,
    first: Seq<EffectView<D::SyncMessage, D::SyncState>>,
    file_delta: FileTextDelta,
    after: ActorView<D, S>,
    last: Seq<EffectView<D::SyncMessage, D::SyncState>>,
)
    requires
        crdt_deltas_processed(before, file_deltas, middle, first),
        crdt_delta_processed(middle, file_delta, after, last),
    ensures
        crdt_deltas_processed(before, file_deltas.push(file_delta), after, first + last),
{
    let more = file_deltas.push(file_delta);
    assert(more.drop_last() =~= file_deltas);
    assert(crdt_delta_processed(middle, more.last(), after, last));
}

proof fn lemma_one_more_read<D: Document>(
    base_dir: Seq<char>,
    before: D,
    entries: Seq<FoundEntry>,
    middle: D,
    entry: FoundEntry,
    after: D,
)
    requires
        texts_read(base_dir, before, entries, middle),
        text_read(base_dir, middle, entry, after),
    ensures
        texts_read(base_dir, before, entries.push(entry), after),
{
    let more = entries.push(entry);
    assert(more.drop_last() =~= entries);
    assert(text_read(base_dir, middle, more.last(), after));
}

/// Processing changes of the document touches only the OT servers, and keeps which files have
/// one.
pub proof fn law_processing_keeps_ownership<D: Document, S: OtServer>(
    before: ActorView<D, S>,
    file_deltas: Seq<FileTextDelta>,
    after: ActorView<D, S>,
    out: Seq<EffectView<D::SyncMessage, D::SyncState>>,
)
    requires
        crdt_deltas_processed(before, file_deltas, after, out),
    ensures
        after.base_dir == before.base_dir,
        after.crdt_doc == before.crdt_doc,
        after.editor_clients == before.editor_clients,
        after.ot_servers.dom() == before.ot_servers.dom(),
    decreases file_deltas.len(),
{
    if file_deltas.len() > 0 {
        let (middle, first, last) = choose|
            middle: ActorView<D, S>,
            first: Seq<EffectView<D::SyncMessage, D::SyncState>>,
            last: Seq<EffectView<D::SyncMessage, D::SyncState>>,
        |
            {
                &&& crdt_deltas_processed(before, file_deltas.drop_last(), middle, first)
                &&& #[trigger] crdt_delta_processed(middle, file_deltas.last(), after, last)
                &&& out == #[trigger] (first + last)
            };
        law_processing_keeps_ownership(before, file_deltas.drop_last(), middle, first);
        assert(after.ot_servers.dom() =~= middle.ot_servers.dom());
    }
}

/// Sorts the effects of patches into changes of files and changes of cursors.
fn split_patch_effects(effects: Vec<PatchEffect>) -> (r: (Vec<FileTextDelta>, Vec<CursorState>))
    ensures
        r.0@ == file_changes(effects@),
        r.1@ == cursor_changes(effects@),
{
    let ghost all = effects@;
    let mut file_deltas: Vec<FileTextDelta> = Vec::new();
    let mut cursor_states: Vec<CursorState> = Vec::new();
    for effect in iter: effects
        invariant
            iter.seq() == all,
            file_deltas@ == file_changes(all.take(iter.index() as int)),
            cursor_states@ == cursor_changes(all.take(iter.index() as int)),
    {
        let ghost i = iter.index() as int;
        assert(effect == all[i]);
        assert(all.take(i + 1).drop_last() =~= all.take(i));
        match effect {
            PatchEffect::FileChange(file_delta) => {
                file_deltas.push(file_delta);
            },
            PatchEffect::CursorChange(state) => {
                cursor_states.push(state);
            },
            PatchEffect::NoEffect => {},
        }
    }
    assert(all.take(all.len() as int) =~= all);
    (file_deltas, cursor_states)
}

/// Whether the effect writes to this path.
pub open spec fn writes_to<M, T>(effect: EffectView<M, T>, absolute_path: Seq<char>) -> bool {
    effect matches EffectView::WriteFile { absolute_path: path, text } && path == absolute_path
}

/// Whether the effect tells the editors of a change in the file with this URI.
pub open spec fn tells_of<M, T>(effect: EffectView<M, T>, uri: Seq<char>) -> bool {
    effect matches EffectView::SendToEditors(
        types::MessageToEditorView::Edit { uri: told, delta },
    ) && told == uri
}

/// Whether the effect is an answer to the sender of a message.
pub open spec fn is_answer<M, T>(effect: EffectView<M, T>) -> bool {
    effect is AnswerContent || effect is AnswerSyncState || effect is AnswerSyncMessage
}

/// No file that the editor has open is written, and the editors are told of changes only in
/// files that are open.
pub open spec fn respects_ownership<D: Document, S>(
    actor: ActorView<D, S>,
    out: Seq<EffectView<D::SyncMessage, D::SyncState>>,
) -> bool {
    &&& forall|i: int, path: Seq<char>|
        0 <= i < out.len() && actor.owns(path) ==> !#[trigger] writes_to(
            out[i],
            uri::absolute_path(actor.base_dir, path),
        )
    &&& forall|i: int, path: Seq<char>|
        0 <= i < out.len() && !actor.owns(path) ==> !#[trigger] tells_of(
            out[i],
            uri::file_uri(actor.base_dir, path),
        )
}

/// Whether the effect is the writing of this file, with a text that the document has for it,
/// while the editor does not have the file open.
pub open spec fn is_write_of<D: Document, S>(
    actor: ActorView<D, S>,
    path: Seq<char>,
    effect: EffectView<D::SyncMessage, D::SyncState>,
) -> bool {
    &&& !actor.owns(path)
    &&& exists|content: String|
        {
            &&& #[trigger] document::read(actor.crdt_doc, path, Ok(content))
            &&& effect == EffectView::<D::SyncMessage, D::SyncState>::WriteFile {
                absolute_path: uri::absolute_path(actor.base_dir, path),
                text: content@,
            }
        }
}

/// The changes, among these, of files that the editor has open.
pub open spec fn open_deltas<D, S>(
    actor: ActorView<D, S>,
    file_deltas: Seq<FileTextDelta>,
) -> Seq<FileTextDelta>
    decreases file_deltas.len(),
{
    if file_deltas.len() == 0 {
        Seq::empty()
    } else {
        let before = open_deltas(actor, file_deltas.drop_last());
        if actor.owns(file_deltas.last().file_path@) {
            before.push(file_deltas.last())
        } else {
            before
        }
    }
}

/// Different file paths have different absolute paths and URIs.
proof fn lemma_paths_differ(base_dir: Seq<char>, a: Seq<char>, b: Seq<char>)
    ensures
        uri::absolute_path(base_dir, a) == uri::absolute_path(base_dir, b) ==> a == b,
        uri::file_uri(base_dir, a) == uri::file_uri(base_dir, b) ==> a == b,
{
    let front = (base_dir + "/"@).len() as int;
    assert(uri::absolute_path(base_dir, a).skip(front) =~= a);
    assert(uri::absolute_path(base_dir, b).skip(front) =~= b);
    let scheme = "file://"@.len() as int;
    assert(uri::file_uri(base_dir, a).skip(scheme) =~= uri::absolute_path(base_dir, a));
    assert(uri::file_uri(base_dir, b).skip(scheme) =~= uri::absolute_path(base_dir, b));
}

/// Every changed file is listed once, and no other file is.
pub proof fn law_changed_paths(file_deltas: Seq<FileTextDelta>)
    ensures
        changed_paths(file_deltas).no_duplicates(),
        forall|i: int|
            0 <= i < file_deltas.len() ==> changed_paths(file_deltas).contains(
                (#[trigger] file_deltas[i]).file_path@,
            ),
        forall|k: int|
            0 <= k < changed_paths(file_deltas).len() ==> exists|i: int|
                0 <= i < file_deltas.len() && (#[trigger] file_deltas[i]).file_path@
                    == #[trigger] changed_paths(file_deltas)[k],
    decreases file_deltas.len(),
{
    if file_deltas.len() > 0 {
        let less = file_deltas.drop_last();
        let before = changed_paths(less);
        let all = changed_paths(file_deltas);
        let last = file_deltas.last().file_path@;
        law_changed_paths(less);
        assert forall|path: Seq<char>| before.contains(path) implies #[trigger] all.contains(path) by {
            let k = choose|k: int| 0 <= k < before.len() && before[k] == path;
            assert(all[k] == path);
        }
        assert(all.contains(last)) by {
            if !before.contains(last) {
                assert(all[before.len() as int] == last);
            }
        }
        assert forall|i: int| 0 <= i < file_deltas.len() implies all.contains(
            (#[trigger] file_deltas[i]).file_path@,
        ) by {
            if i < less.len() {
                assert(less[i] == file_deltas[i]);
            }
        }
        assert forall|k: int| 0 <= k < all.len() implies exists|i: int|
            0 <= i < file_deltas.len() && (#[trigger] file_deltas[i]).file_path@
                == #[trigger] all[k] by {
            if k < before.len() {
                assert(all[k] == before[k]);
                let i = choose|i: int|
                    0 <= i < less.len() && (#[trigger] less[i]).file_path@ == before[k];
                assert(file_deltas[i] == less[i]);
            } else {
                assert(file_deltas[file_deltas.len() - 1].file_path@ == all[k]);
            }
        }
    }
}

/// What is written is the current text of files on the list that the editor does not have open.
/// If the list names no file twice, no file is written twice.
pub proof fn law_writes<D: Document, S>(
    actor: ActorView<D, S>,
    file_paths: Seq<Seq<char>>,
    out: Seq<EffectView<D::SyncMessage, D::SyncState>>,
)
    requires
        may_write_all(actor, file_paths, out),
    ensures
        forall|i: int|
            0 <= i < out.len() ==> exists|k: int|
                0 <= k < file_paths.len() && is_write_of(
                    actor,
                    #[trigger] file_paths[k],
                    #[trigger] out[i],
                ),
        file_paths.no_duplicates() ==> forall|i: int, j: int, path: Seq<char>|
            0 <= i < j < out.len() ==> !(#[trigger] writes_to(out[i], path) && #[trigger] writes_to(
                out[j],
                path,
            )),
    decreases file_paths.len(),
{
    if file_paths.len() > 0 {
        let less = file_paths.drop_last();
        let (before, last) = choose|
            before: Seq<EffectView<D::SyncMessage, D::SyncState>>,
            last: Seq<EffectView<D::SyncMessage, D::SyncState>>,
        |
            {
                &&& may_write_all(actor, less, before)
                &&& may_write(actor, file_paths.last(), last)
                &&& out == #[trigger] (before + last)
            };
        law_writes(actor, less, before);
        let end = file_paths.len() - 1;
        assert(last.len() <= 1);
        assert forall|i: int| 0 <= i < out.len() implies exists|k: int|
            0 <= k < file_paths.len() && is_write_of(
                actor,
                #[trigger] file_paths[k],
                #[trigger] out[i],
            ) by {
            if i < before.len() {
                let k = choose|k: int|
                    0 <= k < less.len() && is_write_of(actor, #[trigger] less[k], before[i]);
                assert(file_paths[k] == less[k] && out[i] == before[i]);
            } else {
                assert(is_write_of(actor, file_paths[end], out[i]));
            }
        }
        if file_paths.no_duplicates() {
            assert(less.no_duplicates());
            assert forall|i: int, j: int, path: Seq<char>| 0 <= i < j < out.len() implies !(
            #[trigger] writes_to(out[i], path) && #[trigger] writes_to(out[j], path)) by {
                if j < before.len() {
                    assert(out[i] == before[i] && out[j] == before[j]);
                } else {
                    let k = choose|k: int|
                        0 <= k < less.len() && is_write_of(actor, #[trigger] less[k], before[i]);
                    assert(out[i] == before[i]);
                    assert(less[k] == file_paths[k]);
                    lemma_paths_differ(actor.base_dir, less[k], file_paths[end]);
                    assert(is_write_of(actor, file_paths[end], out[j]));
                }
            }
        }
    }
}

/// A listed file that is not open, and that the document has, is written.
pub proof fn law_listed_files_are_written<D: Document, S>(
    actor: ActorView<D, S>,
    file_paths: Seq<Seq<char>>,
    out: Seq<EffectView<D::SyncMessage, D::SyncState>>,
    path: Seq<char>,
)
    requires
        may_write_all(actor, file_paths, out),
        file_paths.contains(path),
        !actor.owns(path),
        forall|content: Result<String, String>| #[trigger]
            document::read(actor.crdt_doc, path, content) ==> content is Ok,
    ensures
        exists|i: int| 0 <= i < out.len() && is_write_of(actor, path, #[trigger] out[i]),
    decreases file_paths.len(),
{
    let less = file_paths.drop_last();
    let (before, last) = choose|
        before: Seq<EffectView<D::SyncMessage, D::SyncState>>,
        last: Seq<EffectView<D::SyncMessage, D::SyncState>>,
    |
        {
            &&& may_write_all(actor, less, before)
            &&& may_write(actor, file_paths.last(), last)
            &&& out == #[trigger] (before + last)
        };
    if file_paths.last() == path {
        assert(is_write_of(actor, path, last[0]));
        assert(out[before.len() as int] == last[0]);
    } else {
        let k = choose|k: int| 0 <= k < file_paths.len() && file_paths[k] == path;
        assert(less[k] == path);
        law_listed_files_are_written(actor, less, before, path);
        let i = choose|i: int| 0 <= i < before.len() && is_write_of(actor, path, #[trigger] before[i]);
        assert(out[i] == before[i]);
    }
}

/// The editors get one message for each change of an open file, in the order of the changes, and
/// no other message.
pub proof fn law_editors_are_told<D: Document, S: OtServer>(
    before: ActorView<D, S>,
    file_deltas: Seq<FileTextDelta>,
    after: ActorView<D, S>,
    out: Seq<EffectView<D::SyncMessage, D::SyncState>>,
)
    requires
        crdt_deltas_processed(before, file_deltas, after, out),
    ensures
        out.len() == open_deltas(before, file_deltas).len(),
        forall|i: int|
            0 <= i < out.len() ==> tells_of(
                #[trigger] out[i],
                uri::file_uri(before.base_dir, open_deltas(before, file_deltas)[i].file_path@),
            ) && before.owns(open_deltas(before, file_deltas)[i].file_path@),
    decreases file_deltas.len(),
{
    if file_deltas.len() > 0 {
        let less = file_deltas.drop_last();
        let (middle, first, last) = choose|
            middle: ActorView<D, S>,
            first: Seq<EffectView<D::SyncMessage, D::SyncState>>,
            last: Seq<EffectView<D::SyncMessage, D::SyncState>>,
        |
            {
                &&& crdt_deltas_processed(before, less, middle, first)
                &&& #[trigger] crdt_delta_processed(middle, file_deltas.last(), after, last)
                &&& out == #[trigger] (first + last)
            };
        law_editors_are_told(before, less, middle, first);
        law_processing_keeps_ownership(before, less, middle, first);
        let path = file_deltas.last().file_path@;
        assert(middle.owns(path) == before.ot_servers.dom().contains(path));
        let told = open_deltas(before, file_deltas);
        assert forall|i: int| 0 <= i < out.len() implies tells_of(
            #[trigger] out[i],
            uri::file_uri(before.base_dir, told[i].file_path@),
        ) && before.owns(told[i].file_path@) by {
            if i < first.len() {
                assert(out[i] == first[i]);
                assert(told[i] == open_deltas(before, less)[i]);
            }
        }
    }
}

/// Writing files as `may_write_all` says respects ownership.
proof fn lemma_writes_respect_ownership<D: Document, S>(
    actor: ActorView<D, S>,
    file_paths: Seq<Seq<char>>,
    out: Seq<EffectView<D::SyncMessage, D::SyncState>>,
)
    requires
        may_write_all(actor, file_paths, out),
    ensures
        respects_ownership(actor, out),
{
    law_writes(actor, file_paths, out);
    assert forall|i: int, path: Seq<char>|
        0 <= i < out.len() && actor.owns(path) implies !#[trigger] writes_to(
        out[i],
        uri::absolute_path(actor.base_dir, path),
    ) by {
        let k = choose|k: int|
            0 <= k < file_paths.len() && is_write_of(actor, #[trigger] file_paths[k], out[i]);
        lemma_paths_differ(actor.base_dir, file_paths[k], path);
    }
    assert forall|i: int, path: Seq<char>|
        0 <= i < out.len() && !actor.owns(path) implies !#[trigger] tells_of(
        out[i],
        uri::file_uri(actor.base_dir, path),
    ) by {
        let k = choose|k: int|
            0 <= k < file_paths.len() && is_write_of(actor, #[trigger] file_paths[k], out[i]);
    }
}

/// Writing one file as `may_write` says respects ownership.
proof fn lemma_write_respects_ownership<D: Document, S>(
    actor: ActorView<D, S>,
    file_path: Seq<char>,
    out: Seq<EffectView<D::SyncMessage, D::SyncState>>,
)
    requires
        may_write(actor, file_path, out),
    ensures
        respects_ownership(actor, out),
{
    let none = Seq::<EffectView<D::SyncMessage, D::SyncState>>::empty();
    assert(may_write_all(actor, Seq::<Seq<char>>::empty(), none));
    lemma_may_write_one_more(actor, Seq::empty(), none, file_path, out);
    assert(none + out =~= out);
    lemma_writes_respect_ownership(actor, Seq::<Seq<char>>::empty().push(file_path), out);
}

/// Telling the editors of changes as `crdt_deltas_processed` says respects ownership.
proof fn lemma_telling_respects_ownership<D: Document, S: OtServer>(
    before: ActorView<D, S>,
    file_deltas: Seq<FileTextDelta>,
    after: ActorView<D, S>,
    out: Seq<EffectView<D::SyncMessage, D::SyncState>>,
)
    requires
        crdt_deltas_processed(before, file_deltas, after, out),
    ensures
        respects_ownership(before, out),
{
    law_editors_are_told(before, file_deltas, after, out);
    assert forall|i: int, path: Seq<char>|
        0 <= i < out.len() && !before.owns(path) implies !#[trigger] tells_of(
        out[i],
        uri::file_uri(before.base_dir, path),
    ) by {
        let told = open_deltas(before, file_deltas)[i].file_path@;
        assert(tells_of(out[i], uri::file_uri(before.base_dir, told)));
        lemma_paths_differ(before.base_dir, told, path);
    }
    assert forall|i: int, path: Seq<char>|
        0 <= i < out.len() && before.owns(path) implies !#[trigger] writes_to(
        out[i],
        uri::absolute_path(before.base_dir, path),
    ) by {
        let told = open_deltas(before, file_deltas)[i].file_path@;
        assert(tells_of(out[i], uri::file_uri(before.base_dir, told)));
    }
}

/// Effects that respect ownership still do so one after the other.
proof fn lemma_both_respect_ownership<D: Document, S>(
    actor: ActorView<D, S>,
    first: Seq<EffectView<D::SyncMessage, D::SyncState>>,
    last: Seq<EffectView<D::SyncMessage, D::SyncState>>,
)
    requires
        respects_ownership(actor, first),
        respects_ownership(actor, last),
    ensures
        respects_ownership(actor, first + last),
{
    let out = first + last;
    assert forall|i: int, path: Seq<char>|
        0 <= i < out.len() && actor.owns(path) implies !#[trigger] writes_to(
        out[i],
        uri::absolute_path(actor.base_dir, path),
    ) by {
        if i < first.len() {
            assert(!writes_to(first[i], uri::absolute_path(actor.base_dir, path)));
        } else {
            let k = i - first.len();
            assert(!writes_to(last[k], uri::absolute_path(actor.base_dir, path)));
        }
    }
    assert forall|i: int, path: Seq<char>|
        0 <= i < out.len() && !actor.owns(path) implies !#[trigger] tells_of(
        out[i],
        uri::file_uri(actor.base_dir, path),
    ) by {
        if i < first.len() {
            assert(!tells_of(first[i], uri::file_uri(actor.base_dir, path)));
        } else {
            let k = i - first.len();
            assert(!tells_of(last[k], uri::file_uri(actor.base_dir, path)));
        }
    }
}

/// A change of the document as `doc_changed` says respects ownership.
proof fn lemma_change_respects_ownership<D: Document, S>(
    before: ActorView<D, S>,
    delta: EditorTextDelta,
    file_path: Seq<char>,
    after: ActorView<D, S>,
    out: Seq<EffectView<D::SyncMessage, D::SyncState>>,
)
    requires
        doc_changed(before, delta, file_path, after, out),
    ensures
        respects_ownership(before, out),
        forall|i: int| 0 <= i < out.len() ==> !is_answer(#[trigger] out[i]),
{
    let ping = seq![EffectView::<D::SyncMessage, D::SyncState>::DocumentChanged];
    lemma_write_respects_ownership(after, file_path, out.drop_first());
    assert(forall|path: Seq<char>| after.owns(path) == before.owns(path));
    lemma_both_respect_ownership(before, ping, out.drop_first());
    assert(ping + out.drop_first() =~= out);
    assert forall|i: int| 0 <= i < out.len() implies !is_answer(#[trigger] out[i]) by {
        if i > 0 {
            assert(out[i] == out.drop_first()[i - 1]);
        }
    }
}

/// An edit by the editor respects ownership.
proof fn lemma_edit_respects_ownership<D: Document, S: OtServer>(
    before: ActorView<D, S>,
    rev_delta: RevisionedEditorTextDelta,
    file_path: Seq<char>,
    after: ActorView<D, S>,
    out: Seq<EffectView<D::SyncMessage, D::SyncState>>,
)
    requires
        before.owns(file_path),
        edited(before, rev_delta, file_path, after, Some(out)),
    ensures
        respects_ownership(before, out),
        after.ot_servers.dom() == before.ot_servers.dom(),
        after.base_dir == before.base_dir,
        after.editor_clients == before.editor_clients,
        out.len() > 0 && out[0] is DocumentChanged,
        forall|i: int| 0 <= i < out.len() ==> !is_answer(#[trigger] out[i]),
{
    let content = choose|content: Result<String, String>|
        {
            &&& #[trigger] document::read(before.crdt_doc, file_path, content)
            &&& content matches Ok(text) && exists|
                middle: ActorView<D, S>,
                ed_delta: EditorTextDelta,
                answers: Seq<RevisionedEditorTextDelta>,
                first: Seq<EffectView<D::SyncMessage, D::SyncState>>,
            |
                {
                    &&& #[trigger] ot_changed(
                        before,
                        rev_delta,
                        file_path,
                        text@,
                        middle,
                        ed_delta,
                        answers,
                    )
                    &&& #[trigger] doc_changed(middle, ed_delta, file_path, after, first)
                    &&& out == first + send_edits::<D::SyncMessage, D::SyncState>(
                        before.base_dir,
                        file_path,
                        answers,
                    )
                }
        };
    let text = content->Ok_0;
    let (middle, ed_delta, answers, first) = choose|
        middle: ActorView<D, S>,
        ed_delta: EditorTextDelta,
        answers: Seq<RevisionedEditorTextDelta>,
        first: Seq<EffectView<D::SyncMessage, D::SyncState>>,
    |
        {
            &&& #[trigger] ot_changed(
                before,
                rev_delta,
                file_path,
                text@,
                middle,
                ed_delta,
                answers,
            )
            &&& #[trigger] doc_changed(middle, ed_delta, file_path, after, first)
            &&& out == first + send_edits::<D::SyncMessage, D::SyncState>(
                before.base_dir,
                file_path,
                answers,
            )
        };
    assert(middle.ot_servers.dom() =~= before.ot_servers.dom());
    assert(forall|path: Seq<char>|
        middle.owns(path) == middle.ot_servers.dom().contains(path) && before.owns(path)
            == before.ot_servers.dom().contains(path));
    lemma_change_respects_ownership(middle, ed_delta, file_path, after, first);
    let sent = send_edits::<D::SyncMessage, D::SyncState>(before.base_dir, file_path, answers);
    assert(respects_ownership(before, first));
    assert forall|i: int, path: Seq<char>|
        0 <= i < sent.len() && !before.owns(path) implies !#[trigger] tells_of(
        sent[i],
        uri::file_uri(before.base_dir, path),
    ) by {
        lemma_paths_differ(before.base_dir, file_path, path);
    }
    lemma_both_respect_ownership(before, first, sent);
    assert forall|i: int| 0 <= i < out.len() implies !is_answer(#[trigger] out[i]) by {
        if i < first.len() {
            assert(out[i] == first[i]);
        }
    }
}

/// A random edit respects ownership, and keeps which files are open.
proof fn lemma_random_edit_respects_ownership<D: Document, S: OtServer>(
    before: ActorView<D, S>,
    after: ActorView<D, S>,
    out: Seq<EffectView<D::SyncMessage, D::SyncState>>,
)
    requires
        randomly_edited(before, after, Some(out)),
    ensures
        respects_ownership(before, out),
        after.ot_servers.dom() == before.ot_servers.dom(),
        after.base_dir == before.base_dir,
        after.editor_clients == before.editor_clients,
        out.len() > 0 && out[0] is DocumentChanged,
        forall|i: int| 0 <= i < out.len() ==> !is_answer(#[trigger] out[i]),
{
    let (file_delta, ed_delta, middle, first, last) = choose|
        file_delta: FileTextDelta,
        ed_delta: EditorTextDelta,
        middle: ActorView<D, S>,
        first: Seq<EffectView<D::SyncMessage, D::SyncState>>,
        last: Seq<EffectView<D::SyncMessage, D::SyncState>>,
    |
        {
            &&& #[trigger] doc_changed(before, ed_delta, TEST_FILE_PATH@, middle, first)
            &&& #[trigger] crdt_deltas_processed(middle, seq![file_delta], after, last)
            &&& out == first + last
        };
    lemma_change_respects_ownership(before, ed_delta, TEST_FILE_PATH@, middle, first);
    lemma_telling_respects_ownership(middle, seq![file_delta], after, last);
    law_processing_keeps_ownership(middle, seq![file_delta], after, last);
    law_editors_are_told(middle, seq![file_delta], after, last);
    assert(forall|path: Seq<char>| middle.owns(path) == before.owns(path));
    assert(respects_ownership(before, last));
    lemma_both_respect_ownership(before, first, last);
    assert forall|i: int| 0 <= i < out.len() implies !is_answer(#[trigger] out[i]) by {
        if i < first.len() {
            assert(out[i] == first[i]);
        } else {
            assert(out[i] == last[i - first.len()]);
        }
    }
}

/// Taking in a message from a peer respects ownership, keeps which files are open, and answers
/// once, at the end.
proof fn lemma_synchronizing_respects_ownership<D: Document, S: OtServer>(
    before: ActorView<D, S>,
    message: D::SyncMessage,
    state: D::SyncState,
    after: ActorView<D, S>,
    out: Seq<EffectView<D::SyncMessage, D::SyncState>>,
)
    requires
        synchronized(before, message, state, after, out),
    ensures
        respects_ownership(before, out),
        after.ot_servers.dom() == before.ot_servers.dom(),
        after.base_dir == before.base_dir,
        after.editor_clients == before.editor_clients,
        out.len() > 1 && out[0] is DocumentChanged && out.last() is AnswerSyncState,
        forall|i: int| 0 <= i < out.len() - 1 ==> !is_answer(#[trigger] out[i]),
{
    let (doc, new_state, effects, written, sent) = choose|
        doc: D,
        new_state: D::SyncState,
        effects: Seq<PatchEffect>,
        written: Seq<EffectView<D::SyncMessage, D::SyncState>>,
        sent: Seq<EffectView<D::SyncMessage, D::SyncState>>,
    |
        {
            &&& #[trigger] document::sync_message_received(
                before.crdt_doc,
                message,
                state,
                doc,
                new_state,
                effects,
            )
            &&& #[trigger] may_write_all(
                before.with_doc(doc),
                changed_paths(file_changes(effects)),
                written,
            )
            &&& #[trigger] crdt_deltas_processed(
                before.with_doc(doc),
                file_changes(effects),
                after,
                sent,
            )
            &&& out == seq![EffectView::<D::SyncMessage, D::SyncState>::DocumentChanged] + written
                + sent + send_cursors::<D::SyncMessage, D::SyncState>(
                before.base_dir,
                cursor_changes(effects),
            ) + seq![EffectView::<D::SyncMessage, D::SyncState>::AnswerSyncState(new_state)]
        };
    let middle = before.with_doc(doc);
    let deltas = file_changes(effects);
    let ping = seq![EffectView::<D::SyncMessage, D::SyncState>::DocumentChanged];
    let shown = send_cursors::<D::SyncMessage, D::SyncState>(
        before.base_dir,
        cursor_changes(effects),
    );
    let answer = seq![EffectView::<D::SyncMessage, D::SyncState>::AnswerSyncState(new_state)];
    lemma_writes_respect_ownership(middle, changed_paths(deltas), written);
    law_writes(middle, changed_paths(deltas), written);
    lemma_telling_respects_ownership(middle, deltas, after, sent);
    law_processing_keeps_ownership(middle, deltas, after, sent);
    law_editors_are_told(middle, deltas, after, sent);
    assert(forall|path: Seq<char>| middle.owns(path) == before.owns(path));
    assert(respects_ownership(before, written));
    assert(respects_ownership(before, sent));
    lemma_both_respect_ownership(before, ping, written);
    lemma_both_respect_ownership(before, ping + written, sent);
    lemma_both_respect_ownership(before, ping + written + sent, shown);
    lemma_both_respect_ownership(before, ping + written + sent + shown, answer);
    assert(out.last() == answer[0]);
    assert forall|i: int| 0 <= i < out.len() - 1 implies !is_answer(#[trigger] out[i]) by {
        let after_written = 1 + written.len();
        let after_sent = after_written + sent.len();
        if 1 <= i < after_written {
            assert(out[i] == written[i - 1]);
        } else if after_written <= i < after_sent {
            assert(out[i] == sent[i - after_written]);
        } else if after_sent <= i {
            assert(out[i] == shown[i - after_sent]);
        }
    }
}

/// If the editor has a file open, only the editor writes it: no message makes the daemon write
/// the file. The editors are told of changes only in files that are open.
pub proof fn law_ownership_is_respected<D: Document, S: OtServer>(
    before: ActorView<D, S>,
    message: DocMessage<D::SyncMessage, D::SyncState>,
    after: ActorView<D, S>,
    out: Seq<EffectView<D::SyncMessage, D::SyncState>>,
)
    requires
        message matches DocMessage::FromEditor(from_editor) ==> refusal(before, from_editor) is None,
        message_handled(before, message, after, Some(out)),
    ensures
        respects_ownership(before, out),
{
    match message {
        DocMessage::RandomEdit => {
            lemma_random_edit_respects_ownership(before, after, out);
        },
        DocMessage::FromEditor(EditorProtocolMessageFromEditor::Edit { delta, uri }) => {
            let file_path = uri::file_path(before.base_dir, uri@);
            lemma_edit_respects_ownership(before, delta, file_path, after, out);
        },
        DocMessage::ReceiveSyncMessage { message, state } => {
            lemma_synchronizing_respects_ownership(before, message, state, after, out);
        },
        _ => {},
    }
}

/// The file that a message opens or closes.
pub open spec fn named_file<D, S>(
    actor: ActorView<D, S>,
    message: EditorProtocolMessageFromEditor,
) -> Seq<char> {
    uri::file_path(actor.base_dir, editor_connection::message_uri(message))
}

/// The files that are open after a message. Only an `Open` that succeeds and a `Close` change
/// them.
pub open spec fn open_files_after<D: Document, S>(
    before: ActorView<D, S>,
    message: DocMessage<D::SyncMessage, D::SyncState>,
) -> Set<Seq<char>> {
    match message {
        DocMessage::FromEditor(from_editor) => match from_editor {
            EditorProtocolMessageFromEditor::Open { .. } => before.ot_servers.dom().insert(
                named_file(before, from_editor),
            ),
            EditorProtocolMessageFromEditor::Close { .. } => before.ot_servers.dom().remove(
                named_file(before, from_editor),
            ),
            _ => before.ot_servers.dom(),
        },
        _ => before.ot_servers.dom(),
    }
}

/// The editors that are connected after a message. Only the messages about connections change
/// them.
pub open spec fn clients_after<D: Document, S>(
    before: ActorView<D, S>,
    message: DocMessage<D::SyncMessage, D::SyncState>,
) -> Set<usize> {
    match message {
        DocMessage::NewEditorConnection => before.editor_clients.insert(0),
        DocMessage::CloseEditorConnection => before.editor_clients.remove(0),
        _ => before.editor_clients,
    }
}

/// The base directory never changes; which files are open, and which editors are connected,
/// changes only by the messages that are meant for that.
pub proof fn law_what_messages_change<D: Document, S: OtServer>(
    before: ActorView<D, S>,
    message: DocMessage<D::SyncMessage, D::SyncState>,
    after: ActorView<D, S>,
    out: Seq<EffectView<D::SyncMessage, D::SyncState>>,
)
    requires
        message matches DocMessage::FromEditor(from_editor) ==> refusal(before, from_editor) is None,
        message_handled(before, message, after, Some(out)),
    ensures
        after.base_dir == before.base_dir,
        after.ot_servers.dom() == open_files_after(before, message),
        after.editor_clients == clients_after(before, message),
{
    match message {
        DocMessage::RandomEdit => {
            lemma_random_edit_respects_ownership(before, after, out);
        },
        DocMessage::FromEditor(EditorProtocolMessageFromEditor::Edit { delta, uri }) => {
            let file_path = uri::file_path(before.base_dir, uri@);
            lemma_edit_respects_ownership(before, delta, file_path, after, out);
        },
        DocMessage::ReceiveSyncMessage { message, state } => {
            lemma_synchronizing_respects_ownership(before, message, state, after, out);
        },
        _ => {
            assert(after.ot_servers.dom() =~= open_files_after(before, message));
        },
    }
}

/// A message that fails changes nothing. Only those can fail that need a file which the document
/// does not have: an `Open`, an `Edit`, and a random edit.
pub proof fn law_failure_changes_nothing<D: Document, S: OtServer>(
    before: ActorView<D, S>,
    message: DocMessage<D::SyncMessage, D::SyncState>,
    after: ActorView<D, S>,
)
    requires
        message_handled(before, message, after, None),
    ensures
        after == before,
        message is RandomEdit || (message matches DocMessage::FromEditor(from_editor) && (
        from_editor is Open || from_editor is Edit)),
{
}

/// The messages that ask for something are answered, exactly once, and with an answer of the
/// right kind. Other messages bring no answer.
pub proof fn law_one_answer<D: Document, S: OtServer>(
    before: ActorView<D, S>,
    message: DocMessage<D::SyncMessage, D::SyncState>,
    after: ActorView<D, S>,
    out: Seq<EffectView<D::SyncMessage, D::SyncState>>,
)
    requires
        message matches DocMessage::FromEditor(from_editor) ==> refusal(before, from_editor) is None,
        message_handled(before, message, after, Some(out)),
    ensures
        message is GetContent ==> out.len() > 0 && out.last() is AnswerContent,
        message is ReceiveSyncMessage ==> out.len() > 0 && out.last() is AnswerSyncState,
        message is GenerateSyncMessage ==> out.len() > 0 && out.last() is AnswerSyncMessage,
        forall|i: int| 0 <= i < out.len() - 1 ==> !is_answer(#[trigger] out[i]),
        !(message is GetContent || message is ReceiveSyncMessage || message is GenerateSyncMessage)
            && out.len() > 0 ==> !is_answer(out.last()),
{
    match message {
        DocMessage::RandomEdit => {
            lemma_random_edit_respects_ownership(before, after, out);
        },
        DocMessage::FromEditor(EditorProtocolMessageFromEditor::Edit { delta, uri }) => {
            let file_path = uri::file_path(before.base_dir, uri@);
            lemma_edit_respects_ownership(before, delta, file_path, after, out);
        },
        DocMessage::ReceiveSyncMessage { message, state } => {
            lemma_synchronizing_respects_ownership(before, message, state, after, out);
        },
        _ => {},
    }
}

/// Whenever the document changes, that is announced before anything else is done. The making of
/// a message to a peer is no change.
pub proof fn law_changes_are_announced<D: Document, S: OtServer>(
    before: ActorView<D, S>,
    message: DocMessage<D::SyncMessage, D::SyncState>,
    after: ActorView<D, S>,
    out: Seq<EffectView<D::SyncMessage, D::SyncState>>,
)
    requires
        message matches DocMessage::FromEditor(from_editor) ==> refusal(before, from_editor) is None,
        message_handled(before, message, after, Some(out)),
        !(message is GenerateSyncMessage),
        after.crdt_doc != before.crdt_doc,
    ensures
        out.len() > 0 && out[0] is DocumentChanged,
{
    match message {
        DocMessage::RandomEdit => {
            lemma_random_edit_respects_ownership(before, after, out);
        },
        DocMessage::FromEditor(EditorProtocolMessageFromEditor::Edit { delta, uri }) => {
            let file_path = uri::file_path(before.base_dir, uri@);
            lemma_edit_respects_ownership(before, delta, file_path, after, out);
        },
        DocMessage::ReceiveSyncMessage { message, state } => {
            lemma_synchronizing_respects_ownership(before, message, state, after, out);
        },
        _ => {},
    }
}

/// A file can be edited from its `Open` on: an edit of a file that was opened is not refused.
/// After its `Close` it cannot: an edit is refused until the file is opened again.
pub proof fn law_edits_need_an_open_file<D: Document, S: OtServer>(
    before: ActorView<D, S>,
    message: EditorProtocolMessageFromEditor,
    after: ActorView<D, S>,
    out: Seq<EffectView<D::SyncMessage, D::SyncState>>,
    edit: EditorProtocolMessageFromEditor,
)
    requires
        refusal(before, message) is None,
        editor_message_handled(before, message, after, Some(out)),
        edit is Edit,
        editor_connection::message_uri(edit) == editor_connection::message_uri(message),
    ensures
        message is Open ==> refusal(after, edit) is None,
        message is Close ==> refusal(after, edit) == Some(Refusal::NotOpen),
{
}

} // verus!

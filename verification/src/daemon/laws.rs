//! What messages to the actor come to, stated over the calls that are made of the document and of
//! the OT servers, and over what comes out.
use crate::daemon::ActorFault;
use crate::daemon::ActorView;
use crate::daemon::DocMessage;
use crate::daemon::DocumentActor;
use crate::daemon::Effect;
use crate::daemon::EffectView;
use crate::daemon::FoundEntry;
use crate::daemon;
use crate::document::Document;
use crate::document;
use crate::editor_connection;
use crate::ot::OtServer;
use crate::ot;
use crate::random_edit;
use crate::types::CursorState;
use crate::types::EditorProtocolMessageFromEditor;
use crate::types::EditorTextDelta;
use crate::types::FileTextDelta;
use crate::types::PatchEffect;
use crate::types::Range;
use crate::types::RevisionedEditorTextDelta;
use crate::types::TextDelta;
use crate::types;
use crate::uri;
use vstd::prelude::*;

verus! {

/// An `Edit` to the editors, for a file in the base directory.
pub open spec fn told_edit<M, T>(
    base_dir: Seq<char>,
    file_path: Seq<char>,
    delta: RevisionedEditorTextDelta,
) -> EffectView<M, T> {
    EffectView::SendToEditors(
        types::MessageToEditorView::Edit { uri: "file://"@ + base_dir + "/"@ + file_path, delta },
    )
}

/// A `Cursor` to the editors, for a file in the base directory.
pub open spec fn told_cursor<M, T>(base_dir: Seq<char>, state: CursorState) -> EffectView<M, T> {
    EffectView::SendToEditors(
        types::MessageToEditorView::Cursor {
            name: None,
            userid: state.userid@,
            uri: "file://"@ + base_dir + "/"@ + state.file_path@,
            ranges: state.ranges@,
        },
    )
}

/// Whether an effect tells the editors of a change of a file.
pub open spec fn is_edit<M, T>() -> spec_fn(EffectView<M, T>) -> bool {
    |effect: EffectView<M, T>|
        effect matches EffectView::SendToEditors(message) && message is Edit
}

/// Whether an effect tells the editors of a cursor.
pub open spec fn is_cursor<M, T>() -> spec_fn(EffectView<M, T>) -> bool {
    |effect: EffectView<M, T>|
        effect matches EffectView::SendToEditors(message) && message is Cursor
}

/// Whether an effect of patches is a change of a file.
pub open spec fn changes_file() -> spec_fn(PatchEffect) -> bool {
    |effect: PatchEffect| effect is FileChange
}

/// Whether an effect of patches is a change of a cursor.
pub open spec fn moves_cursor() -> spec_fn(PatchEffect) -> bool {
    |effect: PatchEffect| effect is CursorChange
}

/// Whether a change is of a file that has an OT server.
pub open spec fn is_open<S>(servers: Map<Seq<char>, S>) -> spec_fn(FileTextDelta) -> bool {
    |change: FileTextDelta| servers.contains_key(change.file_path@)
}

proof fn lemma_uri(base_dir: Seq<char>, file_path: Seq<char>)
    ensures
        uri::file_uri(base_dir, file_path) == "file://"@ + base_dir + "/"@ + file_path,
        uri::absolute_path(base_dir, file_path) == base_dir + "/"@ + file_path,
{
    assert(uri::file_uri(base_dir, file_path) =~= "file://"@ + base_dir + "/"@ + file_path);
}

/// Among the effects of patches every change of a file is taken, in order, whatever it changes,
/// and nothing else is taken for one. The same holds of the changes of cursors.
pub proof fn law_no_patch_effect_is_lost(effects: Seq<PatchEffect>)
    ensures
        daemon::file_changes(effects).len() == effects.filter(changes_file()).len(),
        forall|i: int|
            0 <= i < daemon::file_changes(effects).len() ==> effects.filter(changes_file())[i]
                == PatchEffect::FileChange(#[trigger] daemon::file_changes(effects)[i]),
        daemon::cursor_changes(effects).len() == effects.filter(moves_cursor()).len(),
        forall|i: int|
            0 <= i < daemon::cursor_changes(effects).len() ==> effects.filter(moves_cursor())[i]
                == PatchEffect::CursorChange(#[trigger] daemon::cursor_changes(effects)[i]),
    decreases effects.len(),
{
    reveal(Seq::filter);
    if effects.len() > 0 {
        law_no_patch_effect_is_lost(effects.drop_last());
    }
}

/// The changes of open files are all the changes, in order, of files that have an OT server.
pub proof fn law_open_deltas<D, S>(actor: ActorView<D, S>, file_deltas: Seq<FileTextDelta>)
    ensures
        daemon::open_deltas(actor, file_deltas) == file_deltas.filter(is_open(actor.ot_servers)),
    decreases file_deltas.len(),
{
    reveal(Seq::filter);
    if file_deltas.len() > 0 {
        law_open_deltas(actor, file_deltas.drop_last());
    }
}

/// Whether the OT servers went from `steps[0]` to `steps.last()` by taking in the changes one
/// after the other, each with the answer of its number: the server of the changed file is called
/// with the change, and what it turns into takes its place.
pub open spec fn taken_in<S: OtServer>(
    steps: Seq<Map<Seq<char>, S>>,
    changes: Seq<FileTextDelta>,
    answers: Seq<RevisionedEditorTextDelta>,
) -> bool {
    &&& steps.len() == changes.len() + 1
    &&& answers.len() == changes.len()
    &&& forall|i: int|
        0 <= i < changes.len() ==> {
            let path = (#[trigger] changes[i]).file_path@;
            &&& steps[i].contains_key(path)
            &&& call_ensures(
                S::apply_crdt_change,
                (steps[i][path], &changes[i].delta),
                (steps[i + 1][path], answers[i]),
            )
            &&& steps[i + 1] == steps[i].insert(path, steps[i + 1][path])
        }
}

/// Changes of the document are given to the OT servers of the open files, all of them, in order,
/// and as they are. The editors are told exactly what the servers answer, in the same order.
/// Nothing else changes.
pub proof fn law_changes_reach_the_servers<D: Document, S: OtServer>(
    before: ActorView<D, S>,
    file_deltas: Seq<FileTextDelta>,
    after: ActorView<D, S>,
    out: Seq<EffectView<D::SyncMessage, D::SyncState>>,
) -> (r: (Seq<Map<Seq<char>, S>>, Seq<RevisionedEditorTextDelta>))
    requires
        daemon::crdt_deltas_processed(before, file_deltas, after, out),
    ensures
        taken_in(r.0, file_deltas.filter(is_open(before.ot_servers)), r.1),
        r.0[0] == before.ot_servers,
        r.0.last() == after.ot_servers,
        after == (ActorView { ot_servers: after.ot_servers, ..before }),
        out.len() == r.1.len(),
        forall|i: int|
            0 <= i < out.len() ==> #[trigger] out[i] == told_edit::<D::SyncMessage, D::SyncState>(
                before.base_dir,
                file_deltas.filter(is_open(before.ot_servers))[i].file_path@,
                r.1[i],
            ),
    decreases file_deltas.len(),
{
    reveal(Seq::filter);
    let open = file_deltas.filter(is_open(before.ot_servers));
    if file_deltas.len() == 0 {
        (seq![before.ot_servers], Seq::empty())
    } else {
        let less = file_deltas.drop_last();
        let last_delta = file_deltas.last();
        let path = last_delta.file_path@;
        let (middle, first, last) = choose|
            middle: ActorView<D, S>,
            first: Seq<EffectView<D::SyncMessage, D::SyncState>>,
            last: Seq<EffectView<D::SyncMessage, D::SyncState>>,
        |
            {
                &&& daemon::crdt_deltas_processed(before, less, middle, first)
                &&& #[trigger] daemon::crdt_delta_processed(middle, last_delta, after, last)
                &&& out == #[trigger] (first + last)
            };
        let (steps, answers) = law_changes_reach_the_servers(before, less, middle, first);
        daemon::law_processing_keeps_ownership(before, less, middle, first);
        let earlier = less.filter(is_open(before.ot_servers));
        assert(before.ot_servers.dom().contains(path) == middle.ot_servers.dom().contains(path));
        if before.owns(path) {
            let (server, answer) = choose|server: S, answer: RevisionedEditorTextDelta|
                {
                    &&& #[trigger] ot::crdt_change_applied(
                        middle.ot_servers[path],
                        last_delta.delta,
                        server,
                        answer,
                    )
                    &&& after == middle.with_server(path, server)
                    &&& last == seq![
                        EffectView::<D::SyncMessage, D::SyncState>::SendToEditors(
                            editor_connection::edit_message(middle.base_dir, path, answer),
                        ),
                    ]
                };
            lemma_uri(before.base_dir, path);
            let more_steps = steps.push(after.ot_servers);
            let more_answers = answers.push(answer);
            assert(open =~= earlier.push(last_delta));
            assert forall|i: int| 0 <= i < open.len() implies {
                let path = (#[trigger] open[i]).file_path@;
                &&& more_steps[i].contains_key(path)
                &&& call_ensures(
                    S::apply_crdt_change,
                    (more_steps[i][path], &open[i].delta),
                    (more_steps[i + 1][path], more_answers[i]),
                )
                &&& more_steps[i + 1] == more_steps[i].insert(path, more_steps[i + 1][path])
            } by {
                if i < earlier.len() {
                    assert(open[i] == earlier[i]);
                    assert(more_steps[i] == steps[i] && more_steps[i + 1] == steps[i + 1]);
                } else {
                    assert(more_steps[i] == middle.ot_servers);
                    assert(after.ot_servers[path] == server);
                    assert(middle.ot_servers.insert(path, server) =~= after.ot_servers);
                }
            }
            assert forall|i: int| 0 <= i < out.len() implies #[trigger] out[i] == told_edit::<
                D::SyncMessage,
                D::SyncState,
            >(before.base_dir, open[i].file_path@, more_answers[i]) by {
                if i < first.len() {
                    assert(out[i] == first[i]);
                }
            }
            (more_steps, more_answers)
        } else {
            assert(out =~= first);
            (steps, answers)
        }
    }
}

/// Whether the document says this when it is asked for a file.
pub open spec fn says<D: Document>(
    doc: D,
    file_path: Seq<char>,
    content: Result<String, String>,
) -> bool {
    exists|path: &str|
        path@ == file_path && #[trigger] call_ensures(
            D::current_file_content,
            (&doc, path),
            content,
        )
}

/// An `Open` starts an OT server with the whole text that the document has for the file, and
/// changes nothing else. It fails only if the document says that it has no such file.
pub proof fn law_open<D: Document, S: OtServer>(
    before: ActorView<D, S>,
    opened_uri: String,
    after: ActorView<D, S>,
    out: Option<Seq<EffectView<D::SyncMessage, D::SyncState>>>,
) -> (r: (S, Result<String, String>))
    requires
        daemon::message_handled(
            before,
            DocMessage::FromEditor(EditorProtocolMessageFromEditor::Open { uri: opened_uri }),
            after,
            out,
        ),
    ensures
        says(before.crdt_doc, uri::file_path(before.base_dir, opened_uri@), r.1),
        out is Some <==> r.1 is Ok,
        r.1 matches Ok(text) ==> {
            &&& exists|given: String|
                given@ == text@ && #[trigger] call_ensures(S::new, (given,), r.0)
            &&& after == (ActorView {
                ot_servers: before.ot_servers.insert(
                    uri::file_path(before.base_dir, opened_uri@),
                    r.0,
                ),
                ..before
            })
            &&& out->0.len() == 0
        },
        r.1 is Err ==> after == before,
{
    let file_path = uri::file_path(before.base_dir, opened_uri@);
    let content = choose|content: Result<String, String>|
        {
            &&& #[trigger] document::read(before.crdt_doc, file_path, content)
            &&& match content {
                Ok(text) => out is Some && exists|server: S|
                    {
                        &&& #[trigger] ot::started(text@, server)
                        &&& after == before.with_server(file_path, server)
                    },
                Err(_) => out is None && after == before,
            }
        };
    let server = choose|server: S|
        {
            &&& #[trigger] ot::started(content->Ok_0@, server)
            &&& after == before.with_server(file_path, server)
        };
    (server, content)
}

/// A `Close` takes the file from the editor, and changes nothing else.
pub proof fn law_close<D: Document, S: OtServer>(
    before: ActorView<D, S>,
    closed_uri: String,
    after: ActorView<D, S>,
    out: Option<Seq<EffectView<D::SyncMessage, D::SyncState>>>,
)
    requires
        daemon::message_handled(
            before,
            DocMessage::FromEditor(EditorProtocolMessageFromEditor::Close { uri: closed_uri }),
            after,
            out,
        ),
    ensures
        after.editor_clients == before.editor_clients,
        after.crdt_doc == before.crdt_doc,
        after.base_dir == before.base_dir,
        !after.ot_servers.contains_key(uri::file_path(before.base_dir, closed_uri@)),
        forall|other: Seq<char>|
            other != uri::file_path(before.base_dir, closed_uri@) ==> (
            #[trigger] after.ot_servers.contains_key(other) == before.ot_servers.contains_key(other))
                && (before.ot_servers.contains_key(other) ==> after.ot_servers[other]
                == before.ot_servers[other]),
        out matches Some(effects) && effects.len() == 0,
{
}

/// Whether the OT server of the file was given the edit and answered with `delta` and `answers`,
/// and the document was given `ed_delta`, which is `delta` described for the text that it had.
pub open spec fn edit_taken_in<D: Document, S: OtServer>(
    before: ActorView<D, S>,
    rev_delta: RevisionedEditorTextDelta,
    file_path: Seq<char>,
    text: Seq<char>,
    server: S,
    delta: TextDelta,
    answers: Vec<RevisionedEditorTextDelta>,
    ed_delta: EditorTextDelta,
    doc: D,
) -> bool {
    &&& before.ot_servers.contains_key(file_path)
    &&& call_ensures(
        S::apply_editor_operation,
        (before.ot_servers[file_path], &rev_delta),
        (server, (delta, answers)),
    )
    &&& exists|given: &str|
        given@ == text && #[trigger] call_ensures(D::editor_delta, (&delta, given), ed_delta)
    &&& exists|path: &str|
        path@ == file_path && #[trigger] call_ensures(
            D::apply_delta_to_doc,
            (before.crdt_doc, &ed_delta, path),
            doc,
        )
}

/// An `Edit` of an open file goes through the OT server of the file into the document: the server
/// is given the edit, the document what the server made of it, described for the text that the
/// document had. What the server answers goes to the editors: all of it, in its order, and
/// nothing else. The file is not written.
pub proof fn law_edit<D: Document, S: OtServer>(
    before: ActorView<D, S>,
    rev_delta: RevisionedEditorTextDelta,
    edited_uri: String,
    after: ActorView<D, S>,
    out: Option<Seq<EffectView<D::SyncMessage, D::SyncState>>>,
) -> (r: (
    Result<String, String>,
    S,
    TextDelta,
    Vec<RevisionedEditorTextDelta>,
    EditorTextDelta,
))
    requires
        daemon::refusal(
            before,
            EditorProtocolMessageFromEditor::Edit { delta: rev_delta, uri: edited_uri },
        ) is None,
        daemon::message_handled(
            before,
            DocMessage::FromEditor(
                EditorProtocolMessageFromEditor::Edit { delta: rev_delta, uri: edited_uri },
            ),
            after,
            out,
        ),
    ensures
        ({
            let file_path = uri::file_path(before.base_dir, edited_uri@);
            let (content, server, delta, answers, ed_delta) = r;
            &&& says(before.crdt_doc, file_path, content)
            &&& out is Some <==> content is Ok
            &&& content is Err ==> after == before
            &&& content matches Ok(text) ==> {
                &&& edit_taken_in(
                    before,
                    rev_delta,
                    file_path,
                    text@,
                    server,
                    delta,
                    answers,
                    ed_delta,
                    after.crdt_doc,
                )
                &&& after == (ActorView {
                    ot_servers: before.ot_servers.insert(file_path, server),
                    crdt_doc: after.crdt_doc,
                    ..before
                })
                &&& out->0.len() == 1 + answers@.len()
                &&& out->0[0] is DocumentChanged
                &&& forall|i: int|
                    0 <= i < answers@.len() ==> out->0[1 + i] == told_edit::<
                        D::SyncMessage,
                        D::SyncState,
                    >(before.base_dir, file_path, #[trigger] answers@[i])
            }
        }),
{
    let file_path = uri::file_path(before.base_dir, edited_uri@);
    lemma_uri(before.base_dir, file_path);
    let content = choose|content: Result<String, String>|
        {
            &&& #[trigger] document::read(before.crdt_doc, file_path, content)
            &&& match content {
                Ok(text) => exists|
                    middle: ActorView<D, S>,
                    ed_delta: EditorTextDelta,
                    answers: Seq<RevisionedEditorTextDelta>,
                    first: Seq<EffectView<D::SyncMessage, D::SyncState>>,
                |
                    {
                        &&& #[trigger] daemon::ot_changed(
                            before,
                            rev_delta,
                            file_path,
                            text@,
                            middle,
                            ed_delta,
                            answers,
                        )
                        &&& #[trigger] daemon::doc_changed(middle, ed_delta, file_path, after, first)
                        &&& out == Some(
                            first + daemon::send_edits::<D::SyncMessage, D::SyncState>(
                                before.base_dir,
                                file_path,
                                answers,
                            ),
                        )
                    },
                Err(_) => after == before && out is None,
            }
        };
    let (middle, ed_delta, answers, first) = choose|
        middle: ActorView<D, S>,
        ed_delta: EditorTextDelta,
        answers: Seq<RevisionedEditorTextDelta>,
        first: Seq<EffectView<D::SyncMessage, D::SyncState>>,
    |
        {
            &&& #[trigger] daemon::ot_changed(
                before,
                rev_delta,
                file_path,
                content->Ok_0@,
                middle,
                ed_delta,
                answers,
            )
            &&& #[trigger] daemon::doc_changed(middle, ed_delta, file_path, after, first)
            &&& out == Some(
                first + daemon::send_edits::<D::SyncMessage, D::SyncState>(
                    before.base_dir,
                    file_path,
                    answers,
                ),
            )
        };
    let (server, delta) = choose|server: S, delta: TextDelta|
        {
            &&& #[trigger] ot::editor_operation_applied(
                before.ot_servers[file_path],
                rev_delta,
                server,
                delta,
                answers,
            )
            &&& document::described::<D>(delta, content->Ok_0@, ed_delta)
            &&& middle == before.with_server(file_path, server)
        };
    let given = choose|given: Vec<RevisionedEditorTextDelta>|
        given@ == answers && #[trigger] call_ensures(
            S::apply_editor_operation,
            (before.ot_servers[file_path], &rev_delta),
            (server, (delta, given)),
        );
    if content is Ok {
        assert(after.owns(file_path));
        assert(first.drop_first().len() == 0);
        assert(first.len() == 1);
        assert(edit_taken_in(
            before,
            rev_delta,
            file_path,
            content->Ok_0@,
            server,
            delta,
            given,
            ed_delta,
            after.crdt_doc,
        ));
    }
    (content, server, delta, given, ed_delta)
}

/// A `Cursor` stores the ranges in the document, under the document's own name and for the file.
/// Nothing else changes, and the change is announced.
pub proof fn law_cursor<D: Document, S: OtServer>(
    before: ActorView<D, S>,
    cursor_uri: String,
    ranges: Vec<Range>,
    after: ActorView<D, S>,
    out: Option<Seq<EffectView<D::SyncMessage, D::SyncState>>>,
)
    requires
        daemon::message_handled(
            before,
            DocMessage::FromEditor(
                EditorProtocolMessageFromEditor::Cursor { uri: cursor_uri, ranges },
            ),
            after,
            out,
        ),
    ensures
        exists|userid: String, path: String|
            {
                &&& path@ == uri::file_path(before.base_dir, cursor_uri@)
                &&& call_ensures(D::actor_id, (&before.crdt_doc,), userid)
                &&& #[trigger] call_ensures(
                    D::store_cursor_position,
                    (before.crdt_doc, userid, path, ranges),
                    after.crdt_doc,
                )
            },
        after == (ActorView { crdt_doc: after.crdt_doc, ..before }),
        out matches Some(effects) && effects.len() == 1 && effects[0] is DocumentChanged,
{
}

/// A `GetContent` is answered with what the document says of the test file.
pub proof fn law_get_content<D: Document, S: OtServer>(
    before: ActorView<D, S>,
    after: ActorView<D, S>,
    out: Option<Seq<EffectView<D::SyncMessage, D::SyncState>>>,
)
    requires
        daemon::message_handled(
            before,
            DocMessage::<D::SyncMessage, D::SyncState>::GetContent,
            after,
            out,
        ),
    ensures
        after == before,
        out matches Some(effects) && effects.len() == 1 && (
        effects[0] matches EffectView::AnswerContent(content) && says(
            before.crdt_doc,
            "text"@,
            content,
        )),
{
}

/// A `GenerateSyncMessage` is answered with what the document makes of the state of the peer.
pub proof fn law_generate<D: Document, S: OtServer>(
    before: ActorView<D, S>,
    state: D::SyncState,
    after: ActorView<D, S>,
    out: Option<Seq<EffectView<D::SyncMessage, D::SyncState>>>,
)
    requires
        daemon::message_handled(before, DocMessage::GenerateSyncMessage { state }, after, out),
    ensures
        after == (ActorView { crdt_doc: after.crdt_doc, ..before }),
        out matches Some(effects) && effects.len() == 1 && (
        effects[0] matches EffectView::AnswerSyncMessage(new_state, message) && call_ensures(
            D::generate_sync_message,
            (before.crdt_doc, state),
            (after.crdt_doc, (new_state, message)),
        )),
{
}

/// There is one place for an editor. `NewEditorConnection` fills it, `CloseEditorConnection`
/// clears it, and nothing else changes.
pub proof fn law_connections<D: Document, S: OtServer>(
    before: ActorView<D, S>,
    message: DocMessage<D::SyncMessage, D::SyncState>,
    after: ActorView<D, S>,
    out: Option<Seq<EffectView<D::SyncMessage, D::SyncState>>>,
)
    requires
        message is NewEditorConnection || message is CloseEditorConnection,
        daemon::message_handled(before, message, after, out),
    ensures
        after == (ActorView { editor_clients: after.editor_clients, ..before }),
        after.editor_clients.contains(0) <==> message is NewEditorConnection,
        forall|id: usize|
            id != 0 ==> (#[trigger] after.editor_clients.contains(id)
                == before.editor_clients.contains(id)),
        out matches Some(effects) && effects.len() == 0,
{
}

proof fn lemma_filter_all<A>(items: Seq<A>, pred: spec_fn(A) -> bool)
    requires
        forall|i: int| 0 <= i < items.len() ==> pred(#[trigger] items[i]),
    ensures
        items.filter(pred) == items,
    decreases items.len(),
{
    reveal(Seq::filter);
    if items.len() > 0 {
        let less = items.drop_last();
        assert forall|i: int| 0 <= i < less.len() implies pred(#[trigger] less[i]) by {
            assert(less[i] == items[i]);
        }
        lemma_filter_all(less, pred);
        assert(less.push(items.last()) =~= items);
    }
}

proof fn lemma_filter_none<A>(items: Seq<A>, pred: spec_fn(A) -> bool)
    requires
        forall|i: int| 0 <= i < items.len() ==> !pred(#[trigger] items[i]),
    ensures
        items.filter(pred) == Seq::<A>::empty(),
    decreases items.len(),
{
    reveal(Seq::filter);
    if items.len() > 0 {
        let less = items.drop_last();
        assert forall|i: int| 0 <= i < less.len() implies !pred(#[trigger] less[i]) by {
            assert(less[i] == items[i]);
        }
        lemma_filter_none(less, pred);
    } else {
        assert(items =~= Seq::empty());
    }
}

/// What the writing of a file, that the editor does not have open, comes to: the text that the
/// document has for it, if it has one, is written to its place in the base directory.
pub open spec fn is_written<D: Document, S>(
    actor: ActorView<D, S>,
    file_path: Seq<char>,
    content: Result<String, String>,
    out: Seq<EffectView<D::SyncMessage, D::SyncState>>,
) -> bool {
    &&& says(actor.crdt_doc, file_path, content)
    &&& content matches Ok(text) ==> out.contains(
        EffectView::WriteFile {
            absolute_path: actor.base_dir + "/"@ + file_path,
            text: text@,
        },
    )
}

/// A changed file that the editor does not have open is looked up in the document, and written
/// if the document has it.
pub proof fn law_closed_files_are_written<D: Document, S>(
    actor: ActorView<D, S>,
    file_paths: Seq<Seq<char>>,
    out: Seq<EffectView<D::SyncMessage, D::SyncState>>,
    path: Seq<char>,
) -> (content: Result<String, String>)
    requires
        daemon::may_write_all(actor, file_paths, out),
        file_paths.contains(path),
        !actor.owns(path),
    ensures
        is_written(actor, path, content, out),
    decreases file_paths.len(),
{
    let less = file_paths.drop_last();
    let (before, last) = choose|
        before: Seq<EffectView<D::SyncMessage, D::SyncState>>,
        last: Seq<EffectView<D::SyncMessage, D::SyncState>>,
    |
        {
            &&& daemon::may_write_all(actor, less, before)
            &&& daemon::may_write(actor, file_paths.last(), last)
            &&& out == #[trigger] (before + last)
        };
    lemma_uri(actor.base_dir, path);
    if file_paths.last() == path {
        let content = choose|content: Result<String, String>|
            {
                &&& #[trigger] document::read(actor.crdt_doc, path, content)
                &&& last == daemon::write_effect::<D::SyncMessage, D::SyncState>(
                    actor.base_dir,
                    path,
                    content,
                )
            };
        if content is Ok {
            assert(out[before.len() as int] == last[0]);
        }
        content
    } else {
        let k = choose|k: int| 0 <= k < file_paths.len() && file_paths[k] == path;
        assert(less[k] == path);
        let content = law_closed_files_are_written(actor, less, before, path);
        if let Ok(text) = content {
            let effect = EffectView::<D::SyncMessage, D::SyncState>::WriteFile {
                absolute_path: actor.base_dir + "/"@ + path,
                text: text@,
            };
            let i = choose|i: int| 0 <= i < before.len() && before[i] == effect;
            assert(out[i] == effect);
        }
        content
    }
}

/// Whether the document was given the message of the peer, and answered with the state and with
/// patches that mean `meaning`.
pub open spec fn sync_taken_in<D: Document>(
    before: D,
    message: D::SyncMessage,
    state: D::SyncState,
    after: D,
    new_state: D::SyncState,
    meaning: Seq<PatchEffect>,
) -> bool {
    exists|patches: Vec<D::Patch>, given: Vec<PatchEffect>|
        {
            &&& given@ == meaning
            &&& #[trigger] call_ensures(
                D::receive_sync_message_log_patches,
                (before, message, state),
                (after, (new_state, patches)),
            )
            &&& #[trigger] call_ensures(D::patch_effects, (patches,), given)
        }
}

/// The change of a file that an effect of patches is.
pub open spec fn change_of() -> spec_fn(PatchEffect) -> FileTextDelta {
    |effect: PatchEffect| effect->FileChange_0
}

/// The changes of open files among the effects of patches.
pub open spec fn open_changes<S>(
    servers: Map<Seq<char>, S>,
    meaning: Seq<PatchEffect>,
) -> Seq<FileTextDelta> {
    meaning.filter(changes_file()).map_values(change_of()).filter(is_open(servers))
}

/// Each changed file that is not open is written, if the document has it.
#[verifier::opaque]
pub open spec fn closed_files_are_written<D: Document, S>(
    actor: ActorView<D, S>,
    meaning: Seq<PatchEffect>,
    out: Seq<EffectView<D::SyncMessage, D::SyncState>>,
) -> bool {
    forall|i: int|
        #![trigger meaning[i]]
        0 <= i < meaning.len() && (meaning[i] matches PatchEffect::FileChange(change)
            && !actor.owns(change.file_path@)) ==> exists|content: Result<String, String>|
            #[trigger]
            is_written(actor, meaning[i]->FileChange_0.file_path@, content, out)
}

/// What is written is a changed file that is not open, with its text in the document.
#[verifier::opaque]
pub open spec fn only_closed_files_are_written<D: Document, S>(
    actor: ActorView<D, S>,
    meaning: Seq<PatchEffect>,
    out: Seq<EffectView<D::SyncMessage, D::SyncState>>,
) -> bool {
    forall|k: int|
        #![trigger out[k]]
        0 <= k < out.len() && out[k] is WriteFile ==> exists|i: int, text: String|
            {
                &&& 0 <= i < meaning.len()
                &&& meaning[i] is FileChange
                &&& !actor.owns(meaning[i]->FileChange_0.file_path@)
                &&& #[trigger] says(
                    actor.crdt_doc,
                    (#[trigger] meaning[i])->FileChange_0.file_path@,
                    Ok(text),
                )
                &&& out[k] == EffectView::<D::SyncMessage, D::SyncState>::WriteFile {
                    absolute_path: actor.base_dir + "/"@ + meaning[i]->FileChange_0.file_path@,
                    text: text@,
                }
            }
}

/// No file is written twice.
#[verifier::opaque]
pub open spec fn no_file_is_written_twice<M, T>(out: Seq<EffectView<M, T>>) -> bool {
    forall|j: int, k: int|
        0 <= j < k < out.len() && (#[trigger] out[j]) is WriteFile && (#[trigger] out[k])
            is WriteFile ==> out[j]->absolute_path != out[k]->absolute_path
}

/// The editors are told of each changed cursor, in order, and of no other.
#[verifier::opaque]
pub open spec fn cursors_are_told<M, T>(
    base_dir: Seq<char>,
    meaning: Seq<PatchEffect>,
    out: Seq<EffectView<M, T>>,
) -> bool {
    &&& out.filter(is_cursor()).len() == meaning.filter(moves_cursor()).len()
    &&& forall|i: int|
        0 <= i < meaning.filter(moves_cursor()).len() ==> out.filter(is_cursor())[i]
            == told_cursor::<M, T>(
            base_dir,
            (#[trigger] meaning.filter(moves_cursor())[i])->CursorChange_0,
        )
}

/// The editors are told of each answer, in order, and of no other change.
#[verifier::opaque]
pub open spec fn answers_are_told<M, T>(
    base_dir: Seq<char>,
    changes: Seq<FileTextDelta>,
    answers: Seq<RevisionedEditorTextDelta>,
    out: Seq<EffectView<M, T>>,
) -> bool {
    &&& out.filter(is_edit()).len() == answers.len()
    &&& forall|i: int|
        0 <= i < answers.len() ==> out.filter(is_edit())[i] == told_edit::<M, T>(
            base_dir,
            changes[i].file_path@,
            #[trigger] answers[i],
        )
}

/// Where an effect comes: the announcement first, then the files, the changes and the cursors
/// for the editors, and the answer.
pub open spec fn rank<M, T>(effect: EffectView<M, T>) -> int {
    match effect {
        EffectView::DocumentChanged => 0,
        EffectView::WriteFile { .. } => 1,
        EffectView::SendToEditors(types::MessageToEditorView::Edit { .. }) => 2,
        EffectView::SendToEditors(types::MessageToEditorView::Cursor { .. }) => 3,
        EffectView::AnswerContent(_) => 4,
        EffectView::AnswerSyncState(_) => 4,
        EffectView::AnswerSyncMessage(_, _) => 4,
    }
}

/// The effects come in this order, with one announcement and one answer.
#[verifier::opaque]
pub open spec fn in_order<M, T>(out: Seq<EffectView<M, T>>) -> bool {
    &&& forall|j: int, k: int|
        0 <= j < k < out.len() ==> rank(#[trigger] out[j]) <= rank(#[trigger] out[k])
    &&& forall|k: int| 0 < k < out.len() ==> rank(#[trigger] out[k]) > 0
    &&& forall|k: int| 0 <= k < out.len() - 1 ==> rank(#[trigger] out[k]) < 4
}

/// What the message of a peer has brought: the state to answer with, what the patches mean, and
/// the OT servers and their answers, one step for each change of an open file.
pub ghost struct Brought<D: Document, S> {
    pub new_state: D::SyncState,
    pub meaning: Seq<PatchEffect>,
    pub steps: Seq<Map<Seq<char>, S>>,
    pub answers: Seq<RevisionedEditorTextDelta>,
}

proof fn lemma_file_changes(effects: Seq<PatchEffect>)
    ensures
        daemon::file_changes(effects) == effects.filter(changes_file()).map_values(change_of()),
{
    law_no_patch_effect_is_lost(effects);
    let kept = effects.filter(changes_file());
    assert forall|i: int| 0 <= i < kept.len() implies daemon::file_changes(effects)[i]
        == #[trigger] kept.map_values(change_of())[i] by {
        assert(kept[i] == PatchEffect::FileChange(daemon::file_changes(effects)[i]));
    }
    assert(daemon::file_changes(effects) =~= kept.map_values(change_of()));
}

/// A message from a peer is given to the document. Then, of what the patches mean, nothing is
/// left out and nothing is added:
/// - Each change of an open file is given to its OT server, and the answer told to the editors,
///   in order.
/// - Each changed file that is not open is written, with its text in the document, if it has one
///   there. No other file is written, and none twice.
/// - The editors are told of each changed cursor, in order: whose it is, in which file, and where.
/// - The new state of the peer is the answer.
#[verifier::spinoff_prover]
pub proof fn law_receive<D: Document, S: OtServer>(
    before: ActorView<D, S>,
    message: D::SyncMessage,
    state: D::SyncState,
    after: ActorView<D, S>,
    out: Option<Seq<EffectView<D::SyncMessage, D::SyncState>>>,
) -> (r: Brought<D, S>)
    requires
        daemon::message_handled(
            before,
            DocMessage::ReceiveSyncMessage { message, state },
            after,
            out,
        ),
    ensures
        out is Some,
        sync_taken_in(
            before.crdt_doc,
            message,
            state,
            after.crdt_doc,
            r.new_state,
            r.meaning,
        ),
        after == (ActorView {
            crdt_doc: after.crdt_doc,
            ot_servers: after.ot_servers,
            ..before
        }),
        out->0.len() >= 2,
        out->0[0] is DocumentChanged,
        out->0.last() == EffectView::<D::SyncMessage, D::SyncState>::AnswerSyncState(r.new_state),
        taken_in(r.steps, open_changes(before.ot_servers, r.meaning), r.answers),
        r.steps[0] == before.ot_servers,
        r.steps.last() == after.ot_servers,
        answers_are_told(
            before.base_dir,
            open_changes(before.ot_servers, r.meaning),
            r.answers,
            out->0,
        ),
        closed_files_are_written(before.with_doc(after.crdt_doc), r.meaning, out->0),
        only_closed_files_are_written(before.with_doc(after.crdt_doc), r.meaning, out->0),
        no_file_is_written_twice(out->0),
        cursors_are_told(before.base_dir, r.meaning, out->0),
        in_order(out->0),
{
    let effects_out = out->0;
    let (doc, new_state, meaning, written, sent) = choose|
        doc: D,
        new_state: D::SyncState,
        effects: Seq<PatchEffect>,
        written: Seq<EffectView<D::SyncMessage, D::SyncState>>,
        sent: Seq<EffectView<D::SyncMessage, D::SyncState>>,
    |
        {
            &&& #[trigger] document::sync_message_received(
                before.crdt_doc,
                message,
                state,
                doc,
                new_state,
                effects,
            )
            &&& #[trigger] daemon::may_write_all(
                before.with_doc(doc),
                daemon::changed_paths(daemon::file_changes(effects)),
                written,
            )
            &&& #[trigger] daemon::crdt_deltas_processed(
                before.with_doc(doc),
                daemon::file_changes(effects),
                after,
                sent,
            )
            &&& effects_out == seq![
                EffectView::<D::SyncMessage, D::SyncState>::DocumentChanged,
            ] + written + sent + daemon::send_cursors::<D::SyncMessage, D::SyncState>(
                before.base_dir,
                daemon::cursor_changes(effects),
            ) + seq![EffectView::<D::SyncMessage, D::SyncState>::AnswerSyncState(new_state)]
        };
    let shown = daemon::send_cursors::<D::SyncMessage, D::SyncState>(
        before.base_dir,
        daemon::cursor_changes(meaning),
    );
    assert(effects_out == sync_out(written, sent, shown, new_state)) by {
        reveal(sync_out);
    }
    let (steps, answers) = lemma_sync_edits(before, doc, meaning, after, sent);
    lemma_sync_ends(written, sent, shown, new_state);
    lemma_sync_written(before, doc, meaning, written);
    lemma_sync_told(
        before.base_dir,
        open_changes(before.ot_servers, meaning),
        answers,
        meaning,
        written,
        sent,
        new_state,
    );
    lemma_edits_are_edits(
        before.base_dir,
        open_changes(before.ot_servers, meaning),
        answers,
        sent,
    );
    lemma_cursors_are_cursors::<D::SyncMessage, D::SyncState>(
        before.base_dir,
        daemon::cursor_changes(meaning),
    );
    lemma_sync_order(written, sent, shown, new_state);
    lemma_sync_writes(before, doc, meaning, written, sent, new_state);
    lemma_sync_only_writes(before, doc, meaning, written, sent, new_state);
    Brought { new_state, meaning, steps, answers }
}

/// What comes out, by its parts.
#[verifier::opaque]
pub open spec fn sync_out<M, T>(
    written: Seq<EffectView<M, T>>,
    sent: Seq<EffectView<M, T>>,
    shown: Seq<EffectView<M, T>>,
    new_state: T,
) -> Seq<EffectView<M, T>> {
    seq![EffectView::<M, T>::DocumentChanged] + written + sent + shown + seq![
        EffectView::<M, T>::AnswerSyncState(new_state),
    ]
}

/// The ends of what comes out.
proof fn lemma_sync_ends<M, T>(
    written: Seq<EffectView<M, T>>,
    sent: Seq<EffectView<M, T>>,
    shown: Seq<EffectView<M, T>>,
    new_state: T,
)
    ensures
        sync_out(written, sent, shown, new_state).len() >= 2,
        sync_out(written, sent, shown, new_state)[0] is DocumentChanged,
        sync_out(written, sent, shown, new_state).last() == EffectView::<M, T>::AnswerSyncState(
            new_state,
        ),
{
    reveal(sync_out);
}

/// The order of what comes out.
#[verifier::spinoff_prover]
proof fn lemma_sync_order<M, T>(
    written: Seq<EffectView<M, T>>,
    sent: Seq<EffectView<M, T>>,
    shown: Seq<EffectView<M, T>>,
    new_state: T,
)
    requires
        forall|i: int| 0 <= i < written.len() ==> (#[trigger] written[i]) is WriteFile,
        forall|i: int| 0 <= i < sent.len() ==> is_edit()(#[trigger] sent[i]),
        forall|i: int| 0 <= i < shown.len() ==> is_cursor()(#[trigger] shown[i]),
    ensures
        in_order(sync_out(written, sent, shown, new_state)),
{
    reveal(sync_out);
    reveal(in_order);
    let out = sync_out(written, sent, shown, new_state);
    let a = 1 + written.len();
    let b = a + sent.len();
    let c = b + shown.len();
    assert forall|k: int| 0 <= k < out.len() implies rank(#[trigger] out[k]) == (if k == 0 {
        0int
    } else if k < a {
        1
    } else if k < b {
        2
    } else if k < c {
        3
    } else {
        4
    }) by {
        if 0 < k < a {
            assert(out[k] == written[k - 1]);
        } else if a <= k < b {
            assert(out[k] == sent[k - a]);
        } else if b <= k < c {
            assert(out[k] == shown[k - b]);
        }
    }
}

/// What is sent to the editors.
#[verifier::spinoff_prover]
proof fn lemma_sync_told<M, T>(
    base_dir: Seq<char>,
    changes: Seq<FileTextDelta>,
    answers: Seq<RevisionedEditorTextDelta>,
    meaning: Seq<PatchEffect>,
    written: Seq<EffectView<M, T>>,
    sent: Seq<EffectView<M, T>>,
    new_state: T,
)
    requires
        forall|i: int| 0 <= i < written.len() ==> (#[trigger] written[i]) is WriteFile,
        sent.len() == answers.len(),
        forall|i: int|
            0 <= i < sent.len() ==> #[trigger] sent[i] == told_edit::<M, T>(
                base_dir,
                changes[i].file_path@,
                answers[i],
            ),
    ensures
        answers_are_told(
            base_dir,
            changes,
            answers,
            sync_out(
                written,
                sent,
                daemon::send_cursors::<M, T>(base_dir, daemon::cursor_changes(meaning)),
                new_state,
            ),
        ),
        cursors_are_told(
            base_dir,
            meaning,
            sync_out(
                written,
                sent,
                daemon::send_cursors::<M, T>(base_dir, daemon::cursor_changes(meaning)),
                new_state,
            ),
        ),
{
    let shown = daemon::send_cursors::<M, T>(base_dir, daemon::cursor_changes(meaning));
    let out = sync_out(written, sent, shown, new_state);
    lemma_edits_are_edits::<M, T>(base_dir, changes, answers, sent);
    lemma_cursors_are_cursors::<M, T>(base_dir, daemon::cursor_changes(meaning));
    assert(out.filter(is_edit()) == sent && out.filter(is_cursor()) == shown) by {
        lemma_sync_parts(written, sent, shown, new_state);
    }
    lemma_sync_answers(base_dir, changes, answers, sent, out);
    lemma_sync_cursors(base_dir, meaning, out);
}

proof fn lemma_edits_are_edits<M, T>(
    base_dir: Seq<char>,
    changes: Seq<FileTextDelta>,
    answers: Seq<RevisionedEditorTextDelta>,
    sent: Seq<EffectView<M, T>>,
)
    requires
        forall|i: int|
            0 <= i < sent.len() ==> #[trigger] sent[i] == told_edit::<M, T>(
                base_dir,
                changes[i].file_path@,
                answers[i],
            ),
    ensures
        forall|i: int| 0 <= i < sent.len() ==> is_edit()(#[trigger] sent[i]),
{
}

proof fn lemma_cursors_are_cursors<M, T>(base_dir: Seq<char>, states: Seq<CursorState>)
    ensures
        forall|i: int|
            0 <= i < daemon::send_cursors::<M, T>(base_dir, states).len() ==> is_cursor()(
                #[trigger] daemon::send_cursors::<M, T>(base_dir, states)[i],
            ),
{
}

/// The changes that are told are the answers.
proof fn lemma_sync_answers<M, T>(
    base_dir: Seq<char>,
    changes: Seq<FileTextDelta>,
    answers: Seq<RevisionedEditorTextDelta>,
    sent: Seq<EffectView<M, T>>,
    out: Seq<EffectView<M, T>>,
)
    requires
        out.filter(is_edit()) == sent,
        sent.len() == answers.len(),
        forall|i: int|
            0 <= i < sent.len() ==> #[trigger] sent[i] == told_edit::<M, T>(
                base_dir,
                changes[i].file_path@,
                answers[i],
            ),
    ensures
        answers_are_told(base_dir, changes, answers, out),
{
    reveal(answers_are_told);
}

/// The changes of open files, and what is sent of them.
proof fn lemma_sync_edits<D: Document, S: OtServer>(
    before: ActorView<D, S>,
    doc: D,
    meaning: Seq<PatchEffect>,
    after: ActorView<D, S>,
    sent: Seq<EffectView<D::SyncMessage, D::SyncState>>,
) -> (r: (Seq<Map<Seq<char>, S>>, Seq<RevisionedEditorTextDelta>))
    requires
        daemon::crdt_deltas_processed(
            before.with_doc(doc),
            daemon::file_changes(meaning),
            after,
            sent,
        ),
    ensures
        taken_in(r.0, open_changes(before.ot_servers, meaning), r.1),
        r.0[0] == before.ot_servers,
        r.0.last() == after.ot_servers,
        after == (ActorView { ot_servers: after.ot_servers, ..before.with_doc(doc) }),
        sent.len() == r.1.len(),
        forall|i: int|
            0 <= i < sent.len() ==> #[trigger] sent[i] == told_edit::<
                D::SyncMessage,
                D::SyncState,
            >(before.base_dir, open_changes(before.ot_servers, meaning)[i].file_path@, r.1[i]),
        forall|i: int| 0 <= i < sent.len() ==> is_edit()(#[trigger] sent[i]),
{
    lemma_file_changes(meaning);
    law_changes_reach_the_servers(
        before.with_doc(doc),
        daemon::file_changes(meaning),
        after,
        sent,
    )
}

/// What is written are files.
proof fn lemma_sync_written<D: Document, S: OtServer>(
    before: ActorView<D, S>,
    doc: D,
    meaning: Seq<PatchEffect>,
    written: Seq<EffectView<D::SyncMessage, D::SyncState>>,
)
    requires
        daemon::may_write_all(
            before.with_doc(doc),
            daemon::changed_paths(daemon::file_changes(meaning)),
            written,
        ),
    ensures
        forall|i: int| 0 <= i < written.len() ==> (#[trigger] written[i]) is WriteFile,
{
    daemon::law_writes(
        before.with_doc(doc),
        daemon::changed_paths(daemon::file_changes(meaning)),
        written,
    );
}

/// The cursors that are told are the changed ones.
proof fn lemma_sync_cursors<M, T>(
    base_dir: Seq<char>,
    meaning: Seq<PatchEffect>,
    out: Seq<EffectView<M, T>>,
)
    requires
        out.filter(is_cursor()) == daemon::send_cursors::<M, T>(
            base_dir,
            daemon::cursor_changes(meaning),
        ),
    ensures
        cursors_are_told(base_dir, meaning, out),
{
    reveal(cursors_are_told);
    law_no_patch_effect_is_lost(meaning);
    assert forall|i: int|
        0 <= i < meaning.filter(moves_cursor()).len() implies out.filter(is_cursor())[i]
        == told_cursor::<M, T>(
        base_dir,
        (#[trigger] meaning.filter(moves_cursor())[i])->CursorChange_0,
    ) by {
        let state = daemon::cursor_changes(meaning)[i];
        assert(meaning.filter(moves_cursor())[i] == PatchEffect::CursorChange(state));
        lemma_uri(base_dir, state.file_path@);
    }
}

/// The parts of what comes out, told apart by their kind.
#[verifier::spinoff_prover]
proof fn lemma_sync_parts<M, T>(
    written: Seq<EffectView<M, T>>,
    sent: Seq<EffectView<M, T>>,
    shown: Seq<EffectView<M, T>>,
    new_state: T,
)
    requires
        forall|i: int| 0 <= i < written.len() ==> (#[trigger] written[i]) is WriteFile,
        forall|i: int| 0 <= i < sent.len() ==> is_edit()(#[trigger] sent[i]),
        forall|i: int| 0 <= i < shown.len() ==> is_cursor()(#[trigger] shown[i]),
    ensures
        sync_out(written, sent, shown, new_state).filter(is_edit()) == sent,
        sync_out(written, sent, shown, new_state).filter(is_cursor()) == shown,
{
    reveal(sync_out);
    let out = sync_out(written, sent, shown, new_state);
    let ping = seq![EffectView::<M, T>::DocumentChanged];
    let answer = seq![EffectView::<M, T>::AnswerSyncState(new_state)];
    let edits = is_edit::<M, T>();
    let cursors = is_cursor::<M, T>();
    assert(forall|e: EffectView<M, T>|
        !(#[trigger] edits(e) && cursors(e)));
    lemma_filter_none(ping, edits);
    lemma_filter_none(ping, cursors);
    lemma_filter_none(written, edits);
    lemma_filter_none(written, cursors);
    lemma_filter_all(sent, edits);
    lemma_filter_none(sent, cursors);
    lemma_filter_none(shown, edits);
    lemma_filter_all(shown, cursors);
    lemma_filter_none(answer, edits);
    lemma_filter_none(answer, cursors);
    Seq::filter_distributes_over_add(ping, written, edits);
    Seq::filter_distributes_over_add(ping + written, sent, edits);
    Seq::filter_distributes_over_add(ping + written + sent, shown, edits);
    Seq::filter_distributes_over_add(ping + written + sent + shown, answer, edits);
    Seq::filter_distributes_over_add(ping, written, cursors);
    Seq::filter_distributes_over_add(ping + written, sent, cursors);
    Seq::filter_distributes_over_add(ping + written + sent, shown, cursors);
    Seq::filter_distributes_over_add(ping + written + sent + shown, answer, cursors);
    assert(out.filter(edits) =~= sent);
    assert(out.filter(cursors) =~= shown);
}

/// A write of a changed file that is not open, among the changes that the effects mean.
proof fn lemma_written_change<D: Document, S: OtServer>(
    middle: ActorView<D, S>,
    meaning: Seq<PatchEffect>,
    written: Seq<EffectView<D::SyncMessage, D::SyncState>>,
    w: int,
) -> (r: (int, String))
    requires
        daemon::may_write_all(
            middle,
            daemon::changed_paths(daemon::file_changes(meaning)),
            written,
        ),
        0 <= w < written.len(),
    ensures
        0 <= r.0 < meaning.len(),
        meaning[r.0] is FileChange,
        !middle.owns(meaning[r.0]->FileChange_0.file_path@),
        says(middle.crdt_doc, meaning[r.0]->FileChange_0.file_path@, Ok(r.1)),
        written[w] == (EffectView::<D::SyncMessage, D::SyncState>::WriteFile {
            absolute_path: middle.base_dir + "/"@ + meaning[r.0]->FileChange_0.file_path@,
            text: r.1@,
        }),
{
    let changes = daemon::file_changes(meaning);
    let paths = daemon::changed_paths(changes);
    law_no_patch_effect_is_lost(meaning);
    daemon::law_changed_paths(changes);
    daemon::law_writes(middle, paths, written);
    let effect = written[w];
    let p = choose|p: int|
        0 <= p < paths.len() && daemon::is_write_of(middle, #[trigger] paths[p], effect);
    let text = choose|text: String|
        {
            &&& #[trigger] document::read(middle.crdt_doc, paths[p], Ok(text))
            &&& effect == EffectView::<D::SyncMessage, D::SyncState>::WriteFile {
                absolute_path: uri::absolute_path(middle.base_dir, paths[p]),
                text: text@,
            }
        };
    let at = choose|at: int|
        0 <= at < changes.len() && (#[trigger] changes[at]).file_path@ == paths[p];
    let kept = meaning.filter(changes_file());
    assert(kept[at] == PatchEffect::FileChange(changes[at]));
    assert(kept.contains(kept[at]));
    meaning.lemma_filter_contains_rev(changes_file(), kept[at]);
    let i = choose|i: int| 0 <= i < meaning.len() && meaning[i] == kept[at];
    lemma_uri(middle.base_dir, paths[p]);
    (i, text)
}

/// Only changed files that are not open are written, none twice.
#[verifier::spinoff_prover]
proof fn lemma_sync_only_writes<D: Document, S: OtServer>(
    before: ActorView<D, S>,
    doc: D,
    meaning: Seq<PatchEffect>,
    written: Seq<EffectView<D::SyncMessage, D::SyncState>>,
    sent: Seq<EffectView<D::SyncMessage, D::SyncState>>,
    new_state: D::SyncState,
)
    requires
        daemon::may_write_all(
            before.with_doc(doc),
            daemon::changed_paths(daemon::file_changes(meaning)),
            written,
        ),
        forall|i: int| 0 <= i < sent.len() ==> is_edit()(#[trigger] sent[i]),
    ensures
        only_closed_files_are_written(
            before.with_doc(doc),
            meaning,
            sync_out(
                written,
                sent,
                daemon::send_cursors::<D::SyncMessage, D::SyncState>(
                    before.base_dir,
                    daemon::cursor_changes(meaning),
                ),
                new_state,
            ),
        ),
        no_file_is_written_twice(sync_out(
                written,
                sent,
                daemon::send_cursors::<D::SyncMessage, D::SyncState>(
                    before.base_dir,
                    daemon::cursor_changes(meaning),
                ),
                new_state,
            )),
{
    reveal(only_closed_files_are_written);
    reveal(sync_out);
    reveal(no_file_is_written_twice);
    let middle = before.with_doc(doc);
    let shown = daemon::send_cursors::<D::SyncMessage, D::SyncState>(
        before.base_dir,
        daemon::cursor_changes(meaning),
    );
    let out = sync_out(written, sent, shown, new_state);
    let changes = daemon::file_changes(meaning);
    daemon::law_changed_paths(changes);
    daemon::law_writes(middle, daemon::changed_paths(changes), written);
    assert forall|k: int| 0 <= k < out.len() && (#[trigger] out[k]) is WriteFile implies 1 <= k
        <= written.len() && out[k] == written[k - 1] by {
        if k > written.len() {
            let after_written = 1 + written.len();
            if k < after_written + sent.len() {
                assert(out[k] == sent[k - after_written]);
            } else if k < out.len() - 1 {
                assert(out[k] == shown[k - after_written - sent.len()]);
            }
        }
    }
    assert forall|k: int|
        #![trigger out[k]]
        0 <= k < out.len() && out[k] is WriteFile implies exists|i: int, text: String|
        {
            &&& 0 <= i < meaning.len()
            &&& meaning[i] is FileChange
            &&& !middle.owns(meaning[i]->FileChange_0.file_path@)
            &&& #[trigger] says(
                middle.crdt_doc,
                (#[trigger] meaning[i])->FileChange_0.file_path@,
                Ok(text),
            )
            &&& out[k] == EffectView::<D::SyncMessage, D::SyncState>::WriteFile {
                absolute_path: middle.base_dir + "/"@ + meaning[i]->FileChange_0.file_path@,
                text: text@,
            }
        } by {
        let (i, text) = lemma_written_change(middle, meaning, written, k - 1);
        assert(says(middle.crdt_doc, meaning[i]->FileChange_0.file_path@, Ok(text)));
    }
    assert forall|j: int, k: int|
        0 <= j < k < out.len() && (#[trigger] out[j]) is WriteFile && (#[trigger] out[k])
            is WriteFile implies out[j]->absolute_path != out[k]->absolute_path by {
        let path = out[j]->absolute_path;
        assert(daemon::writes_to(written[j - 1], path));
        if out[k]->absolute_path == path {
            assert(daemon::writes_to(written[k - 1], path));
        }
    }
}

/// The changed files that are not open are written.
#[verifier::spinoff_prover]
proof fn lemma_sync_writes<D: Document, S: OtServer>(
    before: ActorView<D, S>,
    doc: D,
    meaning: Seq<PatchEffect>,
    written: Seq<EffectView<D::SyncMessage, D::SyncState>>,
    sent: Seq<EffectView<D::SyncMessage, D::SyncState>>,
    new_state: D::SyncState,
)
    requires
        daemon::may_write_all(
            before.with_doc(doc),
            daemon::changed_paths(daemon::file_changes(meaning)),
            written,
        ),
        forall|i: int| 0 <= i < sent.len() ==> is_edit()(#[trigger] sent[i]),
    ensures
        closed_files_are_written(
            before.with_doc(doc),
            meaning,
            sync_out(
                written,
                sent,
                daemon::send_cursors::<D::SyncMessage, D::SyncState>(
                    before.base_dir,
                    daemon::cursor_changes(meaning),
                ),
                new_state,
            ),
        ),
{
    reveal(closed_files_are_written);
    reveal(sync_out);
    let middle = before.with_doc(doc);
    let shown = daemon::send_cursors::<D::SyncMessage, D::SyncState>(
        before.base_dir,
        daemon::cursor_changes(meaning),
    );
    let out = sync_out(written, sent, shown, new_state);
    let changes = daemon::file_changes(meaning);
    let paths = daemon::changed_paths(changes);
    law_no_patch_effect_is_lost(meaning);
    daemon::law_changed_paths(changes);
    assert forall|i: int|
        #![trigger meaning[i]]
        0 <= i < meaning.len() && (meaning[i] matches PatchEffect::FileChange(change)
            && !middle.owns(change.file_path@)) implies exists|content: Result<String, String>|
        #[trigger]
        is_written(middle, meaning[i]->FileChange_0.file_path@, content, out) by {
        let change = meaning[i]->FileChange_0;
        meaning.lemma_filter_contains(changes_file(), i);
        let kept = meaning.filter(changes_file());
        let at = choose|at: int| 0 <= at < kept.len() && kept[at] == meaning[i];
        assert(kept[at] == PatchEffect::FileChange(changes[at]));
        assert(changes[at] == change);
        let content = law_closed_files_are_written(middle, paths, written, change.file_path@);
        if let Ok(text) = content {
            let effect = EffectView::<D::SyncMessage, D::SyncState>::WriteFile {
                absolute_path: before.base_dir + "/"@ + change.file_path@,
                text: text@,
            };
            let w = choose|w: int| 0 <= w < written.len() && written[w] == effect;
            assert(out[w + 1] == effect);
        }
        assert(is_written(middle, change.file_path@, content, out));
    }
}

/// Whether reading in an entry turns one document into the other: if it is a file with a text,
/// the document is given all of the text, for the path of the file in the base directory;
/// otherwise nothing is done.
pub open spec fn entry_read<D: Document>(
    base_dir: Seq<char>,
    before: D,
    entry: FoundEntry,
    after: D,
) -> bool {
    if entry.is_file && entry.text is Some {
        exists|text: &str, path: &str|
            {
                &&& text@ == entry.text->0@
                &&& base_dir + "/"@ + path@ == uri::absolute_part(entry.path@)
                &&& #[trigger] call_ensures(D::initialize_text, (before, text, path), after)
            }
    } else {
        after == before
    }
}

/// The files that were found are read into the document one after the other, each with all of
/// its text and under its path in the base directory. What is no file, or could not be read, is
/// left out.
pub proof fn law_texts_are_read<D: Document>(
    base_dir: Seq<char>,
    before: D,
    entries: Seq<FoundEntry>,
    after: D,
) -> (steps: Seq<D>)
    requires
        daemon::texts_read(base_dir, before, entries, after),
        forall|i: int|
            0 <= i < entries.len() && (#[trigger] entries[i]).is_file && entries[i].text is Some
                ==> uri::is_within(base_dir, entries[i].path@),
    ensures
        steps.len() == entries.len() + 1,
        steps[0] == before,
        steps.last() == after,
        forall|i: int|
            #![trigger entries[i]]
            0 <= i < entries.len() ==> entry_read(base_dir, steps[i], entries[i], steps[i + 1]),
    decreases entries.len(),
{
    if entries.len() == 0 {
        seq![before]
    } else {
        let less = entries.drop_last();
        let entry = entries.last();
        let middle = choose|middle: D|
            {
                &&& daemon::texts_read(base_dir, before, less, middle)
                &&& #[trigger] daemon::text_read(base_dir, middle, entry, after)
            };
        assert forall|i: int|
            0 <= i < less.len() && (#[trigger] less[i]).is_file && less[i].text
                is Some implies uri::is_within(base_dir, less[i].path@) by {
            assert(less[i] == entries[i]);
        }
        let fewer = law_texts_are_read(base_dir, before, less, middle);
        let steps = fewer.push(after);
        assert(entry_read(base_dir, middle, entry, after)) by {
            if entry.is_file && entry.text is Some {
                assert(entry == entries[entries.len() - 1]);
                uri::law_absolute_path_of_uri(base_dir, entry.path@);
            }
        }
        assert forall|i: int|
            #![trigger entries[i]]
            0 <= i < entries.len() implies entry_read(
            base_dir,
            steps[i],
            entries[i],
            steps[i + 1],
        ) by {
            if i < less.len() {
                assert(less[i] == entries[i]);
                assert(steps[i] == fewer[i] && steps[i + 1] == fewer[i + 1]);
            }
        }
        steps
    }
}

/// A character that random texts are made of.
pub open spec fn is_random_char(c: char) -> bool {
    c == 'd' || c == '\u{fc}' || c == '\u{1f955}' || c == '\u{1f49a}' || c == '\n'
}

/// Whether a change keeps the front of a text, inserts four of the random characters, and deletes
/// at most three characters behind them, of which none is the last of the text.
pub open spec fn is_small_edit(text: Seq<char>, delta: TextDelta) -> bool {
    &&& delta.ops@.len() == 3
    &&& delta.ops@[0] matches types::TextOp::Retain(position) && position <= text.len()
    &&& delta.ops@[1] matches types::TextOp::Insert(inserted) && inserted@.len() == 4 && forall|
        i: int,
    |
        0 <= i < 4 ==> is_random_char(#[trigger] inserted@[i])
    &&& delta.ops@[2] matches types::TextOp::Delete(deleted) && deleted <= 3 && (deleted == 0
        || delta.ops@[0]->Retain_0 + deleted < text.len())
}

proof fn lemma_small_edit(text: Seq<char>, delta: TextDelta)
    requires
        random_edit::is_random_edit(text, delta),
    ensures
        is_small_edit(text, delta),
{
    let (choices, position, drawn) = choose|choices: Seq<usize>, position: usize, drawn: usize|
        {
            &&& random_edit::is_drawn(text.len(), choices, position, drawn)
            &&& delta@ == #[trigger] random_edit::edit(text.len(), choices, position, drawn)
        };
    assert(delta@.len() == 3);
    assert(delta@[0] == delta.ops@[0]@);
    assert(delta@[1] == delta.ops@[1]@);
    assert(delta@[2] == delta.ops@[2]@);
    assert(delta@[0] is Retain && delta@[1] is Insert && delta@[2] is Delete);
    random_edit::law_pieces(choices);
    assert forall|i: int| 0 <= i < 4 implies is_random_char(
        #[trigger] random_edit::pieces(choices)[i],
    ) by {
        assert(choices[i] < random_edit::OPTIONS);
    }
    random_edit::law_edit_within_text(text.len(), choices, position, drawn);
}

/// Whether a small edit of the text was described for it, and given to the document.
pub open spec fn random_edit_made<D: Document>(
    before: D,
    text: Seq<char>,
    delta: TextDelta,
    after: D,
) -> bool {
    exists|ed_delta: EditorTextDelta, given: &str, path: &str|
        {
            &&& given@ == text
            &&& path@ == "text"@
            &&& #[trigger] call_ensures(D::editor_delta, (&delta, given), ed_delta)
            &&& #[trigger] call_ensures(D::apply_delta_to_doc, (before, &ed_delta, path), after)
        }
}

/// A random edit is a small edit of the test file, made to the document. If the test file is
/// open, its OT server is given the same edit, and the editors are told what it answers; the file
/// is not written. If it is not open, it is written with its new text, and the editors are told
/// nothing. It fails only if the document says that it has no such file.
pub proof fn law_random_edit<D: Document, S: OtServer>(
    before: ActorView<D, S>,
    after: ActorView<D, S>,
    out: Option<Seq<EffectView<D::SyncMessage, D::SyncState>>>,
) -> (r: (
    Result<String, String>,
    TextDelta,
    RevisionedEditorTextDelta,
    Result<String, String>,
))
    requires
        daemon::message_handled(
            before,
            DocMessage::<D::SyncMessage, D::SyncState>::RandomEdit,
            after,
            out,
        ),
    ensures
        says(before.crdt_doc, "text"@, r.0),
        out is Some <==> r.0 is Ok,
        r.0 is Err ==> after == before,
        r.0 matches Ok(text) ==> {
            &&& is_small_edit(text@, r.1)
            &&& random_edit_made(before.crdt_doc, text@, r.1, after.crdt_doc)
            &&& after == (ActorView {
                crdt_doc: after.crdt_doc,
                ot_servers: after.ot_servers,
                ..before
            })
            &&& out->0.len() > 0 && out->0[0] is DocumentChanged
        },
        r.0 is Ok && before.owns("text"@) ==> {
            &&& call_ensures(
                S::apply_crdt_change,
                (before.ot_servers["text"@], &r.1),
                (after.ot_servers["text"@], r.2),
            )
            &&& after.ot_servers == before.ot_servers.insert("text"@, after.ot_servers["text"@])
            &&& out->0.len() == 2
            &&& out->0[1] == told_edit::<D::SyncMessage, D::SyncState>(
                before.base_dir,
                "text"@,
                r.2,
            )
        },
        r.0 is Ok && !before.owns("text"@) ==> {
            &&& after.ot_servers == before.ot_servers
            &&& says(after.crdt_doc, "text"@, r.3)
            &&& r.3 is Err ==> out->0.len() == 1
            &&& r.3 matches Ok(text) ==> out->0.len() == 2 && out->0[1] == (EffectView::<
                D::SyncMessage,
                D::SyncState,
            >::WriteFile { absolute_path: before.base_dir + "/"@ + "text"@, text: text@ })
        },
{
    lemma_uri(before.base_dir, "text"@);
    let content = choose|content: Result<String, String>|
        {
            &&& #[trigger] document::read(before.crdt_doc, "text"@, content)
            &&& match content {
                Ok(text) => random_parts_exist(before, text@, after, out),
                Err(_) => after == before && out is None,
            }
        };
    if content is Ok {
        let text = content->Ok_0@;
        let (file_delta, ed_delta, middle, first, last) = choose|
            file_delta: FileTextDelta,
            ed_delta: EditorTextDelta,
            middle: ActorView<D, S>,
            first: Seq<EffectView<D::SyncMessage, D::SyncState>>,
            last: Seq<EffectView<D::SyncMessage, D::SyncState>>,
        |
            {
                &&& file_delta.file_path@ == "text"@
                &&& random_edit::is_random_edit(text, file_delta.delta)
                &&& document::described::<D>(file_delta.delta, text, ed_delta)
                &&& #[trigger] daemon::doc_changed(before, ed_delta, "text"@, middle, first)
                &&& #[trigger] daemon::crdt_deltas_processed(
                    middle,
                    seq![file_delta],
                    after,
                    last,
                )
                &&& out == Some(first + last)
            };
        lemma_small_edit(text, file_delta.delta);
        let (answer, written) = lemma_random_parts(
            before,
            file_delta,
            ed_delta,
            middle,
            first,
            after,
            last,
        );
        assert(random_edit_made(before.crdt_doc, text, file_delta.delta, after.crdt_doc)) by {
            let given = choose|given: &str|
                given@ == text && #[trigger] call_ensures(
                    D::editor_delta,
                    (&file_delta.delta, given),
                    ed_delta,
                );
            let path = choose|path: &str|
                path@ == "text"@ && #[trigger] call_ensures(
                    D::apply_delta_to_doc,
                    (before.crdt_doc, &ed_delta, path),
                    middle.crdt_doc,
                );
        }
        (content, file_delta.delta, answer, written)
    } else {
        (content, arbitrary(), arbitrary(), content)
    }
}

/// The parts of a random edit.
spec fn random_parts_exist<D: Document, S: OtServer>(
    before: ActorView<D, S>,
    text: Seq<char>,
    after: ActorView<D, S>,
    out: Option<Seq<EffectView<D::SyncMessage, D::SyncState>>>,
) -> bool {
    exists|
        file_delta: FileTextDelta,
        ed_delta: EditorTextDelta,
        middle: ActorView<D, S>,
        first: Seq<EffectView<D::SyncMessage, D::SyncState>>,
        last: Seq<EffectView<D::SyncMessage, D::SyncState>>,
    |
        {
            &&& file_delta.file_path@ == "text"@
            &&& random_edit::is_random_edit(text, file_delta.delta)
            &&& document::described::<D>(file_delta.delta, text, ed_delta)
            &&& #[trigger] daemon::doc_changed(before, ed_delta, "text"@, middle, first)
            &&& #[trigger] daemon::crdt_deltas_processed(middle, seq![file_delta], after, last)
            &&& out == Some(first + last)
        }
}

proof fn lemma_random_parts<D: Document, S: OtServer>(
    before: ActorView<D, S>,
    file_delta: FileTextDelta,
    ed_delta: EditorTextDelta,
    middle: ActorView<D, S>,
    first: Seq<EffectView<D::SyncMessage, D::SyncState>>,
    after: ActorView<D, S>,
    last: Seq<EffectView<D::SyncMessage, D::SyncState>>,
) -> (r: (RevisionedEditorTextDelta, Result<String, String>))
    requires
        file_delta.file_path@ == "text"@,
        daemon::doc_changed(before, ed_delta, "text"@, middle, first),
        daemon::crdt_deltas_processed(middle, seq![file_delta], after, last),
    ensures
        after == (ActorView {
            crdt_doc: middle.crdt_doc,
            ot_servers: after.ot_servers,
            ..before
        }),
        first.len() > 0 && first[0] is DocumentChanged,
        before.owns("text"@) ==> {
            &&& call_ensures(
                S::apply_crdt_change,
                (before.ot_servers["text"@], &file_delta.delta),
                (after.ot_servers["text"@], r.0),
            )
            &&& after.ot_servers == before.ot_servers.insert("text"@, after.ot_servers["text"@])
            &&& first.len() == 1
            &&& last.len() == 1
            &&& last[0] == told_edit::<D::SyncMessage, D::SyncState>(
                before.base_dir,
                "text"@,
                r.0,
            )
        },
        !before.owns("text"@) ==> {
            &&& after.ot_servers == before.ot_servers
            &&& last.len() == 0
            &&& says(after.crdt_doc, "text"@, r.1)
            &&& r.1 is Err ==> first.len() == 1
            &&& r.1 matches Ok(text) ==> first.len() == 2 && first[1] == (EffectView::<
                D::SyncMessage,
                D::SyncState,
            >::WriteFile { absolute_path: before.base_dir + "/"@ + "text"@, text: text@ })
        },
{
    lemma_uri(before.base_dir, "text"@);
    let one = seq![file_delta];
    let (steps, answers) = law_changes_reach_the_servers(middle, one, after, last);
    reveal_with_fuel(Seq::filter, 2);
    let open = one.filter(is_open(middle.ot_servers));
    assert(one.drop_last() =~= Seq::empty());
    assert(one.drop_last().filter(is_open(middle.ot_servers)).len() == 0);
    let written = choose|content: Result<String, String>|
        {
            &&& #[trigger] document::read(middle.crdt_doc, "text"@, content)
            &&& first.drop_first() == daemon::write_effect::<D::SyncMessage, D::SyncState>(
                before.base_dir,
                "text"@,
                content,
            )
        };
    if before.owns("text"@) {
        assert(open =~= one);
        assert(open[0] == file_delta);
        assert(first.drop_first().len() == 0);
        assert(last[0] == told_edit::<D::SyncMessage, D::SyncState>(
            before.base_dir,
            open[0].file_path@,
            answers[0],
        ));
        (answers[0], written)
    } else {
        assert(open.len() == 0);
        if written is Ok {
            assert(first[1] == first.drop_first()[0]);
        }
        (arbitrary(), written)
    }
}

/// A message that fails has asked the document for a file, and the document has said that it has
/// none.
pub proof fn law_only_missing_files_fail<D: Document, S: OtServer>(
    before: ActorView<D, S>,
    message: DocMessage<D::SyncMessage, D::SyncState>,
    after: ActorView<D, S>,
)
    requires
        daemon::message_handled(before, message, after, None),
    ensures
        after == before,
        match message {
            DocMessage::RandomEdit => exists|why: String| #[trigger]
                says(before.crdt_doc, "text"@, Err(why)),
            DocMessage::FromEditor(EditorProtocolMessageFromEditor::Open { uri }) => exists|
                why: String,
            | #[trigger]
                says(before.crdt_doc, uri::file_path(before.base_dir, uri@), Err(why)),
            DocMessage::FromEditor(EditorProtocolMessageFromEditor::Edit { delta, uri }) => exists|
                why: String,
            | #[trigger]
                says(before.crdt_doc, uri::file_path(before.base_dir, uri@), Err(why)),
            _ => false,
        },
{
    match message {
        DocMessage::RandomEdit => {
            let content = choose|content: Result<String, String>| #[trigger]
                document::read(before.crdt_doc, "text"@, content) && content is Err;
            assert(says(before.crdt_doc, "text"@, Err(content->Err_0)));
        },
        DocMessage::FromEditor(from_editor) => {
            let path = uri::file_path(
                before.base_dir,
                editor_connection::message_uri(from_editor),
            );
            let content = choose|content: Result<String, String>| #[trigger]
                document::read(before.crdt_doc, path, content) && content is Err;
            assert(says(before.crdt_doc, path, Err(content->Err_0)));
        },
        _ => {},
    }
}

/// The effects are shown one by one and in order, each with all that it holds.
pub proof fn law_effect_views<M, T>(effects: Seq<Effect<M, T>>)
    ensures
        daemon::effect_views(effects).len() == effects.len(),
        forall|i: int|
            0 <= i < effects.len() ==> match #[trigger] effects[i] {
                Effect::AnswerContent(content) => daemon::effect_views(effects)[i]
                    == EffectView::<M, T>::AnswerContent(content),
                Effect::AnswerSyncState(state) => daemon::effect_views(effects)[i] == EffectView::<
                    M,
                    T,
                >::AnswerSyncState(state),
                Effect::AnswerSyncMessage(state, message) => daemon::effect_views(effects)[i]
                    == EffectView::<M, T>::AnswerSyncMessage(state, message),
                Effect::DocumentChanged => daemon::effect_views(effects)[i] == EffectView::<
                    M,
                    T,
                >::DocumentChanged,
                Effect::WriteFile { absolute_path, text } => daemon::effect_views(effects)[i]
                    == (EffectView::<M, T>::WriteFile {
                    absolute_path: absolute_path@,
                    text: text@,
                }),
                Effect::SendToEditors(message) => daemon::effect_views(effects)[i] == EffectView::<
                    M,
                    T,
                >::SendToEditors(message@),
            },
{
}

/// An outcome is shown with all of its effects, or as a failure.
pub proof fn law_outcome<M, T>(r: Result<Vec<Effect<M, T>>, ActorFault>)
    ensures
        r is Err <==> daemon::outcome(r) is None,
        r matches Ok(effects) ==> daemon::outcome(r) == Some(daemon::effect_views(effects@)),
{
}

/// An actor is shown with all that it holds.
pub proof fn law_actor_view<D, S>(actor: DocumentActor<D, S>)
    ensures
        actor@.editor_clients == actor.editor_clients@,
        actor@.ot_servers == actor.ot_servers@,
        actor@.crdt_doc == actor.crdt_doc,
        actor@.base_dir == actor.base_dir@,
{
}

/// A message is refused exactly if its URI names no file in the base directory, or if it is an
/// `Edit` of a file that is not open.
pub proof fn law_refusal<D, S>(actor: ActorView<D, S>, message: EditorProtocolMessageFromEditor)
    ensures
        ({
            let named = editor_connection::message_uri(message);
            let within = uri::is_within(actor.base_dir, named);
            let open = actor.ot_servers.contains_key(uri::file_path(actor.base_dir, named));
            &&& daemon::refusal(actor, message) is None <==> within && (message is Edit ==> open)
            &&& !within ==> daemon::refusal(actor, message) == Some(
                daemon::Refusal::Uri(uri::problem(actor.base_dir, named)->0),
            )
            &&& daemon::refusal(actor, message) == Some(daemon::Refusal::NotOpen) <==> within
                && message is Edit && !open
        }),
{
    uri::law_problem(actor.base_dir, editor_connection::message_uri(message));
}

/// A fault names the file that could not be opened.
pub proof fn law_fault_words(fault: ActorFault)
    ensures
        match fault {
            ActorFault::CannotOpen { file_path } => fault.words() == "Could not open file "@
                + file_path@ + ", because it doesn't exist in the CRDT"@,
            ActorFault::NoText => fault.words()
                == "Should have initialized text before performing random edit"@,
        },
{
}

/// A change of the document gives the document the change, for the file, and is announced. The
/// file is then written, with its text in the changed document, exactly if the editor does not
/// have it open and the document has it. Nothing else changes.
pub proof fn law_doc_changed<D: Document, S>(
    before: ActorView<D, S>,
    delta: EditorTextDelta,
    file_path: Seq<char>,
    after: ActorView<D, S>,
    out: Seq<EffectView<D::SyncMessage, D::SyncState>>,
) -> (content: Result<String, String>)
    requires
        daemon::doc_changed(before, delta, file_path, after, out),
    ensures
        exists|path: &str|
            path@ == file_path && #[trigger] call_ensures(
                D::apply_delta_to_doc,
                (before.crdt_doc, &delta, path),
                after.crdt_doc,
            ),
        after == (ActorView { crdt_doc: after.crdt_doc, ..before }),
        out.len() > 0 && out[0] is DocumentChanged,
        before.ot_servers.contains_key(file_path) ==> out.len() == 1,
        !before.ot_servers.contains_key(file_path) ==> {
            &&& says(after.crdt_doc, file_path, content)
            &&& content is Err ==> out.len() == 1
            &&& content matches Ok(text) ==> out.len() == 2 && out[1] == (EffectView::<
                D::SyncMessage,
                D::SyncState,
            >::WriteFile { absolute_path: before.base_dir + "/"@ + file_path, text: text@ })
        },
{
    let content = law_file_written(after, file_path, out.drop_first());
    if out.len() > 1 {
        assert(out[1] == out.drop_first()[0]);
    }
    content
}

/// A file is written, with its text in the document, exactly if the editor does not have it open
/// and the document has it.
pub proof fn law_file_written<D: Document, S>(
    actor: ActorView<D, S>,
    file_path: Seq<char>,
    out: Seq<EffectView<D::SyncMessage, D::SyncState>>,
) -> (content: Result<String, String>)
    requires
        daemon::may_write(actor, file_path, out),
    ensures
        actor.ot_servers.contains_key(file_path) ==> out.len() == 0,
        !actor.ot_servers.contains_key(file_path) ==> {
            &&& says(actor.crdt_doc, file_path, content)
            &&& content is Err ==> out.len() == 0
            &&& content matches Ok(text) ==> out.len() == 1 && out[0] == (EffectView::<
                D::SyncMessage,
                D::SyncState,
            >::WriteFile { absolute_path: actor.base_dir + "/"@ + file_path, text: text@ })
        },
{
    lemma_uri(actor.base_dir, file_path);
    choose|content: Result<String, String>|
        {
            &&& #[trigger] document::read(actor.crdt_doc, file_path, content)
            &&& out == daemon::write_effect::<D::SyncMessage, D::SyncState>(
                actor.base_dir,
                file_path,
                content,
            )
        }
}

/// A message is called by its kind alone.
pub proof fn law_message_name<M, T>(message: DocMessage<M, T>)
    ensures
        match message {
            DocMessage::GetContent => daemon::message_name(message) == "get content"@,
            DocMessage::FromEditor(_) => daemon::message_name(message)
                == "open/close/edit/... message from editor"@,
            DocMessage::RandomEdit => daemon::message_name(message) == "random edit"@,
            DocMessage::ReceiveSyncMessage { .. } => daemon::message_name(message)
                == "<automerge internal sync rcv>"@,
            DocMessage::GenerateSyncMessage { .. } => daemon::message_name(message)
                == "<automerge internal sync gen>"@,
            DocMessage::NewEditorConnection => daemon::message_name(message)
                == "editor connected"@,
            DocMessage::CloseEditorConnection => daemon::message_name(message)
                == "editor disconnected"@,
        },
{
}

} // verus!

//! What the daemon asks of an operational transformation server.
use crate::types::RevisionedEditorTextDelta;
use crate::types::TextDelta;
use vstd::prelude::*;

verus! {

/// Keeps an editor's copy of one text in step with the shared document.
///
/// Nothing is assumed of what the methods return. Contracts that involve a server relate the
/// server before a call, what the call was given, the server after it and what came back.
pub trait OtServer: Sized {
    /// A server for a file that the editor has just opened with this text.
    fn new(text: String) -> Self;

    /// Takes in a change of the shared document. Returns what to tell the editor.
    fn apply_crdt_change(self, delta: &TextDelta) -> (Self, RevisionedEditorTextDelta);

    /// Takes in a change by the editor. Returns the change to make to the shared document, and
    /// what to tell the editor.
    fn apply_editor_operation(self, rev_delta: &RevisionedEditorTextDelta) -> (
        Self,
        (TextDelta, Vec<RevisionedEditorTextDelta>),
    );
}

/// `server` is what `OtServer::new` can make of a text.
pub open spec fn started<S: OtServer>(text: Seq<char>, server: S) -> bool {
    exists|given: String| given@ == text && #[trigger] call_ensures(S::new, (given,), server)
}

/// `before` can turn into `after` and answer `answer` when it takes in a change of the shared
/// document.
pub open spec fn crdt_change_applied<S: OtServer>(
    before: S,
    delta: TextDelta,
    after: S,
    answer: RevisionedEditorTextDelta,
) -> bool {
    call_ensures(S::apply_crdt_change, (before, &delta), (after, answer))
}

/// `before` can turn into `after` and answer `delta` and `answers` when it takes in a change by
/// the editor.
pub open spec fn editor_operation_applied<S: OtServer>(
    before: S,
    rev_delta: RevisionedEditorTextDelta,
    after: S,
    delta: TextDelta,
    answers: Seq<RevisionedEditorTextDelta>,
) -> bool {
    exists|given: Vec<RevisionedEditorTextDelta>|
        given@ == answers && #[trigger] call_ensures(
            S::apply_editor_operation,
            (before, &rev_delta),
            (after, (delta, given)),
        )
}

} // verus!

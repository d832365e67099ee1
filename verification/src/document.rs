//! What the daemon asks of the shared document.
use crate::types::EditorTextDelta;
use crate::types::PatchEffect;
use crate::types::Range;
use crate::types::TextDelta;
use vstd::prelude::*;

verus! {

/// The shared document: the texts of the files, and the cursors of the users.
///
/// Nothing is assumed of what the methods return. Contracts that involve the document relate the
/// document before a call, what the call was given, the document after it and what came back.
pub trait Document: Sized {
    /// What peers send each other to synchronize.
    type SyncMessage;

    /// What is known of the state of a peer.
    type SyncState;

    /// A change that a synchronization has made.
    type Patch;

    /// The text of a file, or why there is none.
    fn current_file_content(&self, file_path: &str) -> Result<String, String>;

    /// Sets the text of a file that the document does not have yet.
    fn initialize_text(self, text: &str, file_path: &str) -> Self;

    /// Changes the text of a file.
    fn apply_delta_to_doc(self, delta: &EditorTextDelta, file_path: &str) -> Self;

    /// Stores where the cursors of a user are.
    fn store_cursor_position(self, userid: String, file_path: String, ranges: Vec<Range>) -> Self;

    /// The name under which this daemon changes the document.
    fn actor_id(&self) -> String;

    /// Takes in a message from a peer. Returns the new state of the peer, and what has changed.
    fn receive_sync_message_log_patches(
        self,
        message: Self::SyncMessage,
        state: Self::SyncState,
    ) -> (Self, (Self::SyncState, Vec<Self::Patch>));

    /// Makes a message to a peer, if there is something to tell.
    fn generate_sync_message(self, state: Self::SyncState) -> (
        Self,
        (Self::SyncState, Option<Self::SyncMessage>),
    );

    /// What the patches mean for the editors.
    fn patch_effects(patches: Vec<Self::Patch>) -> Vec<PatchEffect>;

    /// Describes a change of `text` by lines and characters.
    fn editor_delta(delta: &TextDelta, text: &str) -> EditorTextDelta;
}

/// `content` is what reading a file from the document can return.
pub open spec fn read<D: Document>(
    doc: D,
    file_path: Seq<char>,
    content: Result<String, String>,
) -> bool {
    exists|path: &str|
        path@ == file_path && #[trigger] call_ensures(
            D::current_file_content,
            (&doc, path),
            content,
        )
}

/// `after` is what setting the text of a file can make of `before`.
pub open spec fn initialized<D: Document>(
    before: D,
    text: Seq<char>,
    file_path: Seq<char>,
    after: D,
) -> bool {
    exists|given: &str, path: &str|
        given@ == text && path@ == file_path && #[trigger] call_ensures(
            D::initialize_text,
            (before, given, path),
            after,
        )
}

/// `after` is what changing the text of a file can make of `before`.
pub open spec fn delta_applied<D: Document>(
    before: D,
    delta: EditorTextDelta,
    file_path: Seq<char>,
    after: D,
) -> bool {
    exists|path: &str|
        path@ == file_path && #[trigger] call_ensures(
            D::apply_delta_to_doc,
            (before, &delta, path),
            after,
        )
}

/// `after` is what storing the cursors of the daemon's own user can make of `before`.
pub open spec fn own_cursor_stored<D: Document>(
    before: D,
    file_path: Seq<char>,
    ranges: Vec<Range>,
    after: D,
) -> bool {
    exists|userid: String, path: String|
        path@ == file_path && call_ensures(D::actor_id, (&before,), userid)
            && #[trigger] call_ensures(
            D::store_cursor_position,
            (before, userid, path, ranges),
            after,
        )
}

/// `after` and the rest are what taking in a message can make of `before`.
pub open spec fn sync_message_received<D: Document>(
    before: D,
    message: D::SyncMessage,
    state: D::SyncState,
    after: D,
    new_state: D::SyncState,
    effects: Seq<PatchEffect>,
) -> bool {
    exists|patches: Vec<D::Patch>, meaning: Vec<PatchEffect>|
        meaning@ == effects && #[trigger] call_ensures(
            D::receive_sync_message_log_patches,
            (before, message, state),
            (after, (new_state, patches)),
        ) && #[trigger] call_ensures(D::patch_effects, (patches,), meaning)
}

/// `after` and the rest are what making a message can make of `before`.
pub open spec fn sync_message_generated<D: Document>(
    before: D,
    state: D::SyncState,
    after: D,
    new_state: D::SyncState,
    message: Option<D::SyncMessage>,
) -> bool {
    call_ensures(D::generate_sync_message, (before, state), (after, (new_state, message)))
}

/// `ed_delta` is how the change of `text` can be described by lines and characters.
pub open spec fn described<D: Document>(
    delta: TextDelta,
    text: Seq<char>,
    ed_delta: EditorTextDelta,
) -> bool {
    exists|given: &str|
        given@ == text && #[trigger] call_ensures(D::editor_delta, (&delta, given), ed_delta)
}

} // verus!

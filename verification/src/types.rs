//! The values that the editors, the daemon and its document exchange.
use vstd::prelude::*;

verus! {

/// A position in a text: a line, and a character in it, both counted from zero.
#[derive(Clone, Copy, Debug, PartialEq, Eq, Structural)]
pub struct Position {
    pub line: usize,
    pub character: usize,
}

/// A piece of a text, from `start` up to, but not including, `end`.
#[derive(Clone, Copy, Debug, PartialEq, Eq, Structural)]
pub struct Range {
    pub start: Position,
    pub end: Position,
}

/// Puts `replacement` in the place of the text in `range`.
#[derive(Clone, Debug, PartialEq, Eq)]
pub struct EditorTextOp {
    pub range: Range,
    pub replacement: String,
}

/// A change of a text as editors describe it, by lines and characters.
#[derive(Clone, Debug, PartialEq, Eq)]
pub struct EditorTextDelta {
    pub ops: Vec<EditorTextOp>,
}

/// A change by an editor, or for one, together with the revision that it is based on.
#[derive(Clone, Debug, PartialEq, Eq)]
pub struct RevisionedEditorTextDelta {
    pub revision: usize,
    pub delta: EditorTextDelta,
}

/// One step of a walk through a text that changes it.
#[derive(Clone, Debug, PartialEq, Eq)]
pub enum TextOp {
    /// Keeps that many characters.
    Retain(usize),
    /// Inserts a text.
    Insert(String),
    /// Leaves that many characters out.
    Delete(usize),
}

/// A change of a text as a walk through it.
#[derive(Clone, Debug, PartialEq, Eq)]
pub struct TextDelta {
    pub ops: Vec<TextOp>,
}

/// A step, with the characters of the text that it inserts.
pub enum TextOpView {
    Retain(nat),
    Insert(Seq<char>),
    Delete(nat),
}

impl View for TextOp {
    type V = TextOpView;

    open spec fn view(&self) -> TextOpView {
        match self {
            TextOp::Retain(n) => TextOpView::Retain(*n as nat),
            TextOp::Insert(text) => TextOpView::Insert(text@),
            TextOp::Delete(n) => TextOpView::Delete(*n as nat),
        }
    }
}

impl View for TextDelta {
    type V = Seq<TextOpView>;

    open spec fn view(&self) -> Seq<TextOpView> {
        Seq::new(self.ops@.len(), |i: int| self.ops@[i]@)
    }
}

impl TextDelta {
    /// The walk without a step.
    pub fn new() -> (r: Self)
        ensures
            r@ == Seq::<TextOpView>::empty(),
            r.ops@.len() == 0,
    {
        let r = TextDelta { ops: Vec::new() };
        assert(r@ =~= Seq::<TextOpView>::empty());
        r
    }

    /// Adds a step that keeps `n` characters.
    pub fn retain(&mut self, n: usize)
        ensures
            final(self)@ == old(self)@.push(TextOpView::Retain(n as nat)),
            final(self).ops@ == old(self).ops@.push(TextOp::Retain(n)),
    {
        self.ops.push(TextOp::Retain(n));
        assert(self@ =~= old(self)@.push(TextOpView::Retain(n as nat)));
    }

    /// Adds a step that inserts `text`.
    pub fn insert(&mut self, text: &str)
        ensures
            final(self)@ == old(self)@.push(TextOpView::Insert(text@)),
            final(self).ops@.drop_last() == old(self).ops@,
            final(self).ops@.len() > 0,
            final(self).ops@.last() matches TextOp::Insert(inserted) && inserted@ == text@,
    {
        self.ops.push(TextOp::Insert(text.to_owned()));
        assert(self@ =~= old(self)@.push(TextOpView::Insert(text@)));
        assert(self.ops@.drop_last() =~= old(self).ops@);
    }

    /// Adds a step that leaves `n` characters out.
    pub fn delete(&mut self, n: usize)
        ensures
            final(self)@ == old(self)@.push(TextOpView::Delete(n as nat)),
            final(self).ops@ == old(self).ops@.push(TextOp::Delete(n)),
    {
        self.ops.push(TextOp::Delete(n));
        assert(self@ =~= old(self)@.push(TextOpView::Delete(n as nat)));
    }
}

/// A change of one file.
#[derive(Clone, Debug, PartialEq, Eq)]
pub struct FileTextDelta {
    pub file_path: String,
    pub delta: TextDelta,
}

/// Where the cursors of a user are in a file.
#[derive(Clone, Debug, PartialEq, Eq)]
pub struct CursorState {
    pub userid: String,
    pub file_path: String,
    pub ranges: Vec<Range>,
}

/// What a patch of the shared document means for the editors.
#[derive(Clone, Debug, PartialEq, Eq)]
pub enum PatchEffect {
    FileChange(FileTextDelta),
    CursorChange(CursorState),
    NoEffect,
}

/// What an editor tells the daemon.
#[derive(Clone, Debug, PartialEq, Eq)]
pub enum EditorProtocolMessageFromEditor {
    Open { uri: String },
    Close { uri: String },
    Edit { delta: RevisionedEditorTextDelta, uri: String },
    Cursor { uri: String, ranges: Vec<Range> },
}

/// What the daemon tells an editor.
#[derive(Clone, Debug, PartialEq, Eq)]
pub enum EditorProtocolMessageToEditor {
    Edit { uri: String, delta: RevisionedEditorTextDelta },
    Cursor { name: Option<String>, userid: String, uri: String, ranges: Vec<Range> },
}

/// A message to an editor, by the characters of its strings.
pub enum MessageToEditorView {
    Edit { uri: Seq<char>, delta: RevisionedEditorTextDelta },
    Cursor {
        name: Option<Seq<char>>,
        userid: Seq<char>,
        uri: Seq<char>,
        ranges: Seq<Range>,
    },
}

/// The characters of a string that may be missing.
pub open spec fn opt_view(text: Option<String>) -> Option<Seq<char>> {
    match text {
        Some(text) => Some(text@),
        None => None,
    }
}

impl View for EditorProtocolMessageToEditor {
    type V = MessageToEditorView;

    open spec fn view(&self) -> MessageToEditorView {
        match self {
            EditorProtocolMessageToEditor::Edit { uri, delta } => MessageToEditorView::Edit {
                uri: uri@,
                delta: *delta,
            },
            EditorProtocolMessageToEditor::Cursor { name, userid, uri, ranges } => {
                MessageToEditorView::Cursor {
                    name: opt_view(*name),
                    userid: userid@,
                    uri: uri@,
                    ranges: ranges@,
                }
            },
        }
    }
}

/// What goes over the wire to an editor.
#[derive(Clone, Debug, PartialEq, Eq)]
pub enum EditorProtocolObject {
    Request(EditorProtocolMessageToEditor),
}

impl View for EditorProtocolObject {
    type V = MessageToEditorView;

    open spec fn view(&self) -> MessageToEditorView {
        match self {
            EditorProtocolObject::Request(message) => message@,
        }
    }
}

/// What an editor is told when its message could not be handled.
#[derive(Clone, Debug, PartialEq, Eq)]
pub struct EditorProtocolMessageError {
    pub code: i32,
    pub message: String,
    pub data: Option<String>,
}

/// An error answer, by the characters of its strings.
pub struct MessageErrorView {
    pub code: int,
    pub message: Seq<char>,
    pub data: Option<Seq<char>>,
}

impl View for EditorProtocolMessageError {
    type V = MessageErrorView;

    open spec fn view(&self) -> MessageErrorView {
        MessageErrorView {
            code: self.code as int,
            message: self.message@,
            data: opt_view(self.data),
        }
    }
}

/// What the editor connections and the rest of the daemon tell each other.
#[derive(Clone, Debug, PartialEq, Eq)]
pub enum InsideMessage {
    Open { file_path: String },
    Close { file_path: String },
    Edit { file_path: String, delta: TextDelta },
    Cursor {
        cursor_id: String,
        name: Option<String>,
        file_path: String,
        ranges: Vec<Range>,
    },
}

/// A message inside the daemon, by the characters of its strings.
pub enum InsideMessageView {
    Open { file_path: Seq<char> },
    Close { file_path: Seq<char> },
    Edit { file_path: Seq<char>, delta: TextDelta },
    Cursor {
        cursor_id: Seq<char>,
        name: Option<Seq<char>>,
        file_path: Seq<char>,
        ranges: Seq<Range>,
    },
}

impl View for InsideMessage {
    type V = InsideMessageView;

    open spec fn view(&self) -> InsideMessageView {
        match self {
            InsideMessage::Open { file_path } => InsideMessageView::Open { file_path: file_path@ },
            InsideMessage::Close { file_path } => {
                InsideMessageView::Close { file_path: file_path@ }
            },
            InsideMessage::Edit { file_path, delta } => InsideMessageView::Edit {
                file_path: file_path@,
                delta: *delta,
            },
            InsideMessage::Cursor { cursor_id, name, file_path, ranges } => {
                InsideMessageView::Cursor {
                    cursor_id: cursor_id@,
                    name: opt_view(*name),
                    file_path: file_path@,
                    ranges: ranges@,
                }
            },
        }
    }
}

/// A message to an editor is shown with all that it holds.
pub proof fn law_message_to_editor_view(message: EditorProtocolMessageToEditor)
    ensures
        match message {
            EditorProtocolMessageToEditor::Edit { uri, delta } => message@
                == (MessageToEditorView::Edit { uri: uri@, delta }),
            EditorProtocolMessageToEditor::Cursor { name, userid, uri, ranges } => {
                &&& message@ matches MessageToEditorView::Cursor {
                    name: shown,
                    userid: shown_userid,
                    uri: shown_uri,
                    ranges: shown_ranges,
                }
                &&& shown is Some <==> name is Some
                &&& name is Some ==> shown->0 == name->0@
                &&& shown_userid == userid@
                &&& shown_uri == uri@
                &&& shown_ranges == ranges@
            },
        },
        EditorProtocolObject::Request(message)@ == message@,
{
}

/// An error answer is shown with all that it holds.
pub proof fn law_message_error_view(error: EditorProtocolMessageError)
    ensures
        error@.code == error.code,
        error@.message == error.message@,
        error@.data is Some <==> error.data is Some,
        error.data is Some ==> error@.data->0 == error.data->0@,
{
}

/// A message inside the daemon is shown with all that it holds.
pub proof fn law_inside_message_view(message: InsideMessage)
    ensures
        match message {
            InsideMessage::Open { file_path } => message@
                == (InsideMessageView::Open { file_path: file_path@ }),
            InsideMessage::Close { file_path } => message@
                == (InsideMessageView::Close { file_path: file_path@ }),
            InsideMessage::Edit { file_path, delta } => message@
                == (InsideMessageView::Edit { file_path: file_path@, delta }),
            InsideMessage::Cursor { cursor_id, name, file_path, ranges } => {
                &&& message@ matches InsideMessageView::Cursor {
                    cursor_id: shown_id,
                    name: shown,
                    file_path: shown_path,
                    ranges: shown_ranges,
                }
                &&& shown_id == cursor_id@
                &&& shown is Some <==> name is Some
                &&& name is Some ==> shown->0 == name->0@
                &&& shown_path == file_path@
                &&& shown_ranges == ranges@
            },
        },
{
}

/// A change is shown step by step, each with its number or its text.
pub proof fn law_text_delta_view(delta: TextDelta)
    ensures
        delta@.len() == delta.ops@.len(),
        forall|i: int|
            0 <= i < delta.ops@.len() ==> match #[trigger] delta.ops@[i] {
                TextOp::Retain(n) => delta@[i] == TextOpView::Retain(n as nat),
                TextOp::Insert(text) => delta@[i] == TextOpView::Insert(text@),
                TextOp::Delete(n) => delta@[i] == TextOpView::Delete(n as nat),
            },
{
}

} // verus!

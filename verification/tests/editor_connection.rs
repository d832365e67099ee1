use ethersync::editor_connection::{
    finish_inside, make_ignored_error, EditorConnection, OpenAnswer, OpenQuestion, Opening,
    OutsideStep, Reply,
};
use ethersync::ot::OtServer;
use ethersync::types::{
    EditorProtocolMessageError, EditorProtocolMessageFromEditor, EditorProtocolMessageToEditor,
    EditorProtocolObject, EditorTextDelta, EditorTextOp, InsideMessage, Position, Range,
    RevisionedEditorTextDelta, TextDelta,
};

/// Remembers its text, and answers every edit with itself, once for each edit so far.
struct EchoServer {
    text: String,
    edits: usize,
}

impl OtServer for EchoServer {
    fn new(text: String) -> Self {
        EchoServer { text, edits: 0 }
    }

    fn apply_crdt_change(self, delta: &TextDelta) -> (Self, RevisionedEditorTextDelta) {
        let answer = edit(delta.ops.len(), &self.text);
        (self, answer)
    }

    fn apply_editor_operation(
        self,
        rev_delta: &RevisionedEditorTextDelta,
    ) -> (Self, (TextDelta, Vec<RevisionedEditorTextDelta>)) {
        let edits = self.edits + 1;
        let mut delta = TextDelta::new();
        delta.retain(rev_delta.revision);
        let answers = vec![rev_delta.clone(); edits];
        (EchoServer { text: self.text, edits }, (delta, answers))
    }
}

type Connection = EditorConnection<EchoServer>;

const RANGE: Range = Range {
    start: Position { line: 0, character: 0 },
    end: Position { line: 0, character: 1 },
};

fn edit(revision: usize, replacement: &str) -> RevisionedEditorTextDelta {
    let op = EditorTextOp { range: RANGE, replacement: replacement.to_string() };
    RevisionedEditorTextDelta { revision, delta: EditorTextDelta { ops: vec![op] } }
}

fn connection() -> Connection {
    EditorConnection::new("editor 7".to_string(), "/base")
}

fn asked(step: OutsideStep) -> Opening {
    match step {
        OutsideStep::Ask(opening) => opening,
        OutsideStep::Reply(_) => panic!("no question"),
    }
}

fn reply(step: OutsideStep) -> Reply {
    match step {
        OutsideStep::Ask(_) => panic!("no reply"),
        OutsideStep::Reply(reply) => reply,
    }
}

fn error(step: OutsideStep) -> EditorProtocolMessageError {
    let reply = reply(step);
    assert_eq!(reply.to_editor, vec![]);
    reply.finish(true).unwrap_err()
}

fn open_message(uri: &str) -> EditorProtocolMessageFromEditor {
    EditorProtocolMessageFromEditor::Open { uri: uri.to_string() }
}

/// Opens a file that exists, with this content.
fn open(connection: &mut Connection, uri: &str, content: &[u8]) -> OutsideStep {
    let opening = asked(connection.message_from_outside(&open_message(uri), None));
    assert_eq!(opening.question, OpenQuestion::Exists);
    let opening = asked(connection.continue_open(opening, OpenAnswer::Exists(Ok(true))));
    assert_eq!(opening.question, OpenQuestion::IsIgnored);
    let opening = asked(connection.continue_open(opening, OpenAnswer::Ignored(false)));
    assert_eq!(opening.question, OpenQuestion::Read);
    connection.continue_open(opening, OpenAnswer::Content(Ok(content.to_vec())))
}

#[test]
fn an_existing_file_is_opened() {
    let mut connection = connection();
    assert!(!connection.owns("a/b"));
    let reply = reply(open(&mut connection, "file:///base/a/b", "h\u{fc}".as_bytes()));
    assert_eq!(reply.to_editor, vec![]);
    assert_eq!(reply.finish(true), Ok(InsideMessage::Open { file_path: "a/b".into() }));
    assert!(connection.owns("a/b"));
    assert!(!connection.owns("a"));
    let server = connection.ot_servers.remove("a/b").unwrap();
    assert_eq!(server.text, "h\u{fc}");
}

#[test]
fn a_missing_file_is_created() {
    let mut connection = connection();
    let opening = asked(connection.message_from_outside(&open_message("/base/new"), None));
    assert_eq!(opening.absolute_file_path, "/base/new");
    let opening = asked(connection.continue_open(opening, OpenAnswer::Exists(Ok(false))));
    assert_eq!(opening.question, OpenQuestion::CreateEmpty);
    let opening = asked(connection.continue_open(opening, OpenAnswer::Created(Ok(()))));
    assert_eq!(opening.question, OpenQuestion::IsIgnored);
    let opening = asked(connection.continue_open(opening, OpenAnswer::Ignored(false)));
    let step = connection.continue_open(opening, OpenAnswer::Content(Ok(vec![])));
    assert_eq!(
        reply(step).finish(true),
        Ok(InsideMessage::Open { file_path: "new".into() })
    );
    assert!(connection.owns("new"));
}

#[test]
fn an_ignored_file_is_not_opened() {
    let mut connection = connection();
    let opening = asked(connection.message_from_outside(&open_message("/base/a\"b"), None));
    let opening = asked(connection.continue_open(opening, OpenAnswer::Exists(Ok(true))));
    let step = connection.continue_open(opening, OpenAnswer::Ignored(true));
    assert_eq!(
        error(step),
        EditorProtocolMessageError {
            code: -1,
            message: "File '\"/base/a\\\"b\"' is ignored".into(),
            data: Some("This file should not be shared with other peers".into()),
        }
    );
    assert!(!connection.owns("a\"b"));
}

#[test]
fn a_binary_file_is_not_opened() {
    let mut connection = connection();
    let step = open(&mut connection, "/base/binary", &[0xc3, 0x28]);
    assert_eq!(error(step).message, "Failed to convert bytes to string");
    assert!(!connection.owns("binary"));
}

#[test]
fn failures_while_opening_are_answered() {
    let mut connection = connection();
    let failure = || "No space".to_string();
    let opening = asked(connection.message_from_outside(&open_message("/base/a"), None));
    let step = connection.continue_open(opening, OpenAnswer::Exists(Err(failure())));
    assert_eq!(
        error(step),
        EditorProtocolMessageError { code: -1, message: "No space".into(), data: None }
    );
    let opening = asked(connection.message_from_outside(&open_message("/base/a"), None));
    let opening = asked(connection.continue_open(opening, OpenAnswer::Exists(Ok(false))));
    let step = connection.continue_open(opening, OpenAnswer::Created(Err(failure())));
    assert_eq!(error(step).message, "No space");
    let opening = asked(connection.message_from_outside(&open_message("/base/a"), None));
    let opening = asked(connection.continue_open(opening, OpenAnswer::Exists(Ok(true))));
    let opening = asked(connection.continue_open(opening, OpenAnswer::Ignored(false)));
    let step = connection.continue_open(opening, OpenAnswer::Content(Err(failure())));
    assert_eq!(error(step).message, "No space");
}

#[test]
fn uris_outside_are_refused() {
    let mut connection = connection();
    let step = connection.message_from_outside(&open_message("file://relative"), None);
    assert_eq!(error(step).message, "Path 'relative' is not an absolute file:// URI");
    let close = EditorProtocolMessageFromEditor::Close { uri: "file:///other/a".into() };
    let step = connection.message_from_outside(&close, None);
    assert_eq!(error(step).message, "Path '/other/a' is not within base dir '/base/'");
    let step = connection.message_from_outside(&open_message("/base"), None);
    assert_eq!(error(step).message, "Path '/base' is not within base dir '/base/'");
    assert_eq!(connection.file_path_for_uri("file:///base/x/y"), Ok("x/y".to_string()));
    assert_eq!(connection.absolute_path_for_file_path("x/y"), "/base/x/y");
}

#[test]
fn edits_of_open_files_are_passed_on() {
    let mut connection = connection();
    open(&mut connection, "/base/a", b"text");
    let message = EditorProtocolMessageFromEditor::Edit {
        delta: edit(3, "x"),
        uri: "file:///base/a".into(),
    };
    connection.message_from_outside(&message, None);
    let step = reply(connection.message_from_outside(&message, None));
    let expected = EditorProtocolObject::Request(EditorProtocolMessageToEditor::Edit {
        uri: "file:///base/a".into(),
        delta: edit(3, "x"),
    });
    assert_eq!(step.to_editor, vec![expected.clone(), expected]);
    let mut delta = TextDelta::new();
    delta.retain(3);
    assert_eq!(
        step.finish(true),
        Ok(InsideMessage::Edit { file_path: "a".into(), delta })
    );
}

#[test]
fn an_editor_that_is_gone_gets_an_error() {
    let mut connection = connection();
    open(&mut connection, "/base/a", b"text");
    let message = EditorProtocolMessageFromEditor::Edit {
        delta: edit(0, "x"),
        uri: "/base/a".into(),
    };
    let step = reply(connection.message_from_outside(&message, None));
    assert_eq!(
        step.finish(false).unwrap_err().message,
        "Failed to send message to editor. It probably has disconnected."
    );
}

#[test]
fn edits_of_closed_files_are_refused() {
    let mut connection = connection();
    open(&mut connection, "/base/a", b"text");
    let close = EditorProtocolMessageFromEditor::Close { uri: "/base/a".into() };
    let step = reply(connection.message_from_outside(&close, None));
    assert_eq!(step.finish(true), Ok(InsideMessage::Close { file_path: "a".into() }));
    assert!(!connection.owns("a"));
    let message = EditorProtocolMessageFromEditor::Edit {
        delta: edit(0, "x"),
        uri: "/base/a".into(),
    };
    assert_eq!(
        error(connection.message_from_outside(&message, None)),
        EditorProtocolMessageError {
            code: -1,
            message: "File not found".into(),
            data: Some("Please stop sending edits for this file or 'open' it before.".into()),
        }
    );
}

#[test]
fn cursors_are_passed_on() {
    let mut connection = connection();
    let message = EditorProtocolMessageFromEditor::Cursor {
        uri: "file:///base/a".into(),
        ranges: vec![RANGE],
    };
    let step = reply(connection.message_from_outside(&message, Some("alice".into())));
    let inside = step.finish(true).unwrap();
    assert_eq!(
        inside,
        InsideMessage::Cursor {
            cursor_id: "editor 7".into(),
            name: Some("alice".into()),
            file_path: "a".into(),
            ranges: vec![RANGE],
        }
    );
    let mut other: Connection = EditorConnection::new("other".to_string(), "/base");
    assert_eq!(
        other.message_from_inside(&inside),
        Some(EditorProtocolObject::Request(EditorProtocolMessageToEditor::Cursor {
            name: Some("alice".into()),
            userid: "editor 7".into(),
            uri: "file:///base/a".into(),
            ranges: vec![RANGE],
        }))
    );
}

#[test]
fn changes_reach_only_editors_that_have_the_file_open() {
    let mut connection = connection();
    let mut delta = TextDelta::new();
    delta.insert("x");
    delta.delete(1);
    let message = InsideMessage::Edit { file_path: "a".into(), delta };
    assert_eq!(connection.message_from_inside(&message), None);
    open(&mut connection, "/base/a", b"text");
    assert_eq!(
        connection.message_from_inside(&message),
        Some(EditorProtocolObject::Request(EditorProtocolMessageToEditor::Edit {
            uri: "file:///base/a".into(),
            delta: edit(2, "text"),
        }))
    );
    assert!(connection.owns("a"));
}

#[test]
fn other_messages_from_inside_are_ignored() {
    let mut connection = connection();
    open(&mut connection, "/base/a", b"text");
    let open_message = InsideMessage::Open { file_path: "b".into() };
    assert_eq!(connection.message_from_inside(&open_message), None);
    let close_message = InsideMessage::Close { file_path: "a".into() };
    assert_eq!(connection.message_from_inside(&close_message), None);
    assert!(connection.owns("a") && !connection.owns("b"));
}

#[test]
fn a_message_from_inside_fails_if_it_could_not_be_sent() {
    let failure = "Failed to send message to editor. It probably has disconnected.".to_string();
    assert_eq!(finish_inside(Some(false)), Err(failure));
    assert_eq!(finish_inside(Some(true)), Ok(()));
    assert_eq!(finish_inside(None), Ok(()));
}

#[test]
fn ignored_files_are_named_in_the_answer() {
    assert_eq!(
        make_ignored_error("\"/base/a\""),
        EditorProtocolMessageError {
            code: -1,
            message: "File '\"/base/a\"' is ignored".into(),
            data: Some("This file should not be shared with other peers".into()),
        }
    );
}

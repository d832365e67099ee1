use ethersync::daemon::{
    ActorFault, DocMessage, DocumentActor, EditorId, Effect, FoundEntry, Refusal, TEST_FILE_PATH,
};
use ethersync::document::Document;
use ethersync::ot::OtServer;
use ethersync::types::{
    CursorState, EditorProtocolMessageFromEditor, EditorProtocolMessageToEditor, EditorTextDelta,
    EditorTextOp, FileTextDelta, PatchEffect, Position, Range, RevisionedEditorTextDelta, TextDelta,
    TextOp,
};
use ethersync::uri::UriProblem;
use std::collections::BTreeMap;

const BASE_DIR: &str = "/home/alice/project";

/// A document of plain texts. A message from a peer is the effects that it has.
#[derive(Clone, Debug, Default, PartialEq)]
struct TextDocument {
    files: BTreeMap<String, String>,
    cursors: Vec<(String, String, Vec<Range>)>,
    generated: usize,
}

fn offset(text: &str, position: Position) -> usize {
    let mut start = 0;
    for (line, content) in text.split('\n').enumerate() {
        if line == position.line {
            return start + position.character;
        }
        start += content.chars().count() + 1;
    }
    panic!("no such line");
}

fn position(text: &str, offset: usize) -> Position {
    let before: Vec<char> = text.chars().take(offset).collect();
    let line = before.iter().filter(|c| **c == '\n').count();
    let character = before.iter().rev().take_while(|c| **c != '\n').count();
    Position { line, character }
}

fn replace(text: &str, from: usize, to: usize, replacement: &str) -> String {
    let chars: Vec<char> = text.chars().collect();
    let mut result: String = chars[..from].iter().collect();
    result.push_str(replacement);
    result.extend(chars[to..].iter());
    result
}

impl TextDocument {
    fn apply(&mut self, delta: &EditorTextDelta, file_path: &str) {
        let mut text = self.files[file_path].clone();
        for op in &delta.ops {
            let from = offset(&text, op.range.start);
            let to = offset(&text, op.range.end);
            text = replace(&text, from, to, &op.replacement);
        }
        self.files.insert(file_path.to_string(), text);
    }
}

impl Document for TextDocument {
    type SyncMessage = Vec<PatchEffect>;
    type SyncState = usize;
    type Patch = PatchEffect;

    fn current_file_content(&self, file_path: &str) -> Result<String, String> {
        self.files.get(file_path).cloned().ok_or(format!("no {file_path}"))
    }

    fn initialize_text(mut self, text: &str, file_path: &str) -> Self {
        self.files.insert(file_path.to_string(), text.to_string());
        self
    }

    fn apply_delta_to_doc(mut self, delta: &EditorTextDelta, file_path: &str) -> Self {
        self.apply(delta, file_path);
        self
    }

    fn store_cursor_position(
        mut self,
        userid: String,
        file_path: String,
        ranges: Vec<Range>,
    ) -> Self {
        self.cursors.push((userid, file_path, ranges));
        self
    }

    fn actor_id(&self) -> String {
        "me".to_string()
    }

    fn receive_sync_message_log_patches(
        mut self,
        message: Vec<PatchEffect>,
        state: usize,
    ) -> (Self, (usize, Vec<PatchEffect>)) {
        for effect in &message {
            if let PatchEffect::FileChange(change) = effect {
                let text = self.files[&change.file_path].clone();
                let ed_delta = Self::editor_delta(&change.delta, &text);
                self.apply(&ed_delta, &change.file_path);
            }
        }
        (self, (state + 1, message))
    }

    fn generate_sync_message(mut self, state: usize) -> (Self, (usize, Option<Vec<PatchEffect>>)) {
        self.generated += 1;
        (self, (state + 10, Some(vec![])))
    }

    fn patch_effects(patches: Vec<PatchEffect>) -> Vec<PatchEffect> {
        patches
    }

    fn editor_delta(delta: &TextDelta, text: &str) -> EditorTextDelta {
        let mut text = text.to_string();
        let mut at = 0;
        let mut ops = vec![];
        for op in &delta.ops {
            match op {
                TextOp::Retain(n) => at += n,
                TextOp::Insert(inserted) => {
                    let here = position(&text, at);
                    let range = Range { start: here, end: here };
                    ops.push(EditorTextOp { range, replacement: inserted.clone() });
                    text = replace(&text, at, at, inserted);
                    at += inserted.chars().count();
                }
                TextOp::Delete(n) => {
                    let range = Range { start: position(&text, at), end: position(&text, at + n) };
                    ops.push(EditorTextOp { range, replacement: String::new() });
                    text = replace(&text, at, at + n, "");
                }
            }
        }
        EditorTextDelta { ops }
    }
}

/// A server that takes every edit as it is, and counts.
#[derive(Clone, Debug, PartialEq)]
struct CountingServer {
    text: String,
    revision: usize,
}

impl OtServer for CountingServer {
    fn new(text: String) -> Self {
        CountingServer { text, revision: 0 }
    }

    fn apply_crdt_change(mut self, delta: &TextDelta) -> (Self, RevisionedEditorTextDelta) {
        self.revision += 1;
        let ed_delta = TextDocument::editor_delta(delta, &self.text);
        let answer = RevisionedEditorTextDelta { revision: self.revision, delta: ed_delta };
        (self, answer)
    }

    fn apply_editor_operation(
        mut self,
        rev_delta: &RevisionedEditorTextDelta,
    ) -> (Self, (TextDelta, Vec<RevisionedEditorTextDelta>)) {
        let mut delta = TextDelta::new();
        for op in &rev_delta.delta.ops {
            let from = offset(&self.text, op.range.start);
            let to = offset(&self.text, op.range.end);
            delta.retain(from);
            delta.insert(&op.replacement);
            delta.delete(to - from);
            self.text = replace(&self.text, from, to, &op.replacement);
        }
        // An editor that is behind is told of its own edit.
        let answers = if rev_delta.revision < self.revision {
            vec![rev_delta.clone()]
        } else {
            vec![]
        };
        (self, (delta, answers))
    }
}

type Actor = DocumentActor<TextDocument, CountingServer>;
type Message = DocMessage<Vec<PatchEffect>, usize>;
type Effects = Vec<Effect<Vec<PatchEffect>, usize>>;

fn setup_for_testing() -> Actor {
    DocumentActor::new(TextDocument::default(), BASE_DIR)
}

fn found(path: &str, is_file: bool, text: Option<&str>) -> FoundEntry {
    FoundEntry {
        path: format!("{BASE_DIR}{path}"),
        is_file,
        text: text.map(|text| text.to_string()),
    }
}

fn filesystem_for_testing() -> Vec<FoundEntry> {
    vec![
        found("", false, None),
        found("/file1", true, Some("content1")),
        found("/file2", true, Some("content2")),
        found("/sub", false, None),
        found("/sub/file3", true, Some("content3")),
    ]
}

fn assert_file_content(actor: &Actor, file_path: &str, content: &str) {
    assert_eq!(actor.current_file_content(file_path).unwrap(), content);
}

fn ed_delta_single(start: (usize, usize), end: (usize, usize), text: &str) -> EditorTextDelta {
    let start = Position { line: start.0, character: start.1 };
    let end = Position { line: end.0, character: end.1 };
    let range = Range { start, end };
    EditorTextDelta { ops: vec![EditorTextOp { range, replacement: text.to_string() }] }
}

fn rev_ed_delta_single(
    revision: usize,
    start: (usize, usize),
    end: (usize, usize),
    text: &str,
) -> RevisionedEditorTextDelta {
    RevisionedEditorTextDelta { revision, delta: ed_delta_single(start, end, text) }
}

fn insertion(at: usize, text: &str) -> TextDelta {
    let mut delta = TextDelta::new();
    delta.retain(at);
    delta.insert(text);
    delta
}

fn change(file_path: &str, at: usize, text: &str) -> FileTextDelta {
    FileTextDelta { file_path: file_path.to_string(), delta: insertion(at, text) }
}

fn writes(effects: &Effects) -> Vec<(String, String)> {
    let mut result = vec![];
    for effect in effects {
        if let Effect::WriteFile { absolute_path, text } = effect {
            result.push((absolute_path.clone(), text.clone()));
        }
    }
    result
}

fn sent(effects: &Effects) -> Vec<EditorProtocolMessageToEditor> {
    let mut result = vec![];
    for effect in effects {
        if let Effect::SendToEditors(message) = effect {
            result.push(message.clone());
        }
    }
    result
}

fn handle(actor: Actor, message: Message) -> (Actor, Effects) {
    if let DocMessage::FromEditor(from_editor) = &message {
        assert_eq!(actor.refuses(from_editor), None);
    }
    let (actor, result) = actor.handle_message(message);
    match result {
        Ok(effects) => (actor, effects),
        Err(fault) => panic!("{}", fault.description()),
    }
}

fn uri(file_path: &str) -> String {
    format!("file://{BASE_DIR}/{file_path}")
}

fn open(file_path: &str) -> Message {
    DocMessage::FromEditor(EditorProtocolMessageFromEditor::Open { uri: uri(file_path) })
}

#[test]
fn read_contents_from_dir() {
    let actor = setup_for_testing();

    let actor = actor.read_current_content_from_dir(filesystem_for_testing());

    assert_file_content(&actor, "file1", "content1");
    assert_file_content(&actor, "file2", "content2");
    assert_file_content(&actor, "sub/file3", "content3");
}

#[test]
fn unreadable_files_are_left_out() {
    let entries = vec![found("/binary", true, None), found("/dir", false, Some("text"))];
    let actor = setup_for_testing().read_current_content_from_dir(entries);
    assert_eq!(actor.crdt_doc, TextDocument::default());
}

#[test]
fn test_maybe_write_files_changed_in_file_deltas() {
    let mut actor = setup_for_testing().read_current_content_from_dir(filesystem_for_testing());

    // One change to rule them all.
    let ed_delta = ed_delta_single((0, 0), (0, 0), "foobar");

    // "manually" apply the deltas, as we want to test
    // "maybe_write_files_changed_in_file_deltas" independently.
    actor.crdt_doc.apply(&ed_delta, "file1");
    actor.crdt_doc.apply(&ed_delta, "file2");
    actor.crdt_doc.apply(&ed_delta, "sub/file3");

    let file_deltas = vec![
        change("file1", 0, "foobar"),
        change("file2", 0, "foobar"),
        change("sub/file3", 0, "foobar"),
    ];

    // The editor has file2 and sub/file3 open.
    let (actor, result) = actor.open_file_path("file2".into());
    assert!(result.is_ok());
    let (actor, result) = actor.open_file_path("sub/file3".into());
    assert!(result.is_ok());
    let effects = actor.maybe_write_files_changed_in_file_deltas(&file_deltas);

    // Thus, we only expect file1 to be changed on disk.
    assert_eq!(
        writes(&effects),
        vec![(format!("{BASE_DIR}/file1"), "foobarcontent1".to_string())],
    );
    assert_eq!(effects.len(), 1);
}

#[test]
fn a_file_is_written_once() {
    let actor = setup_for_testing().read_current_content_from_dir(filesystem_for_testing());
    let file_deltas = vec![
        change("file2", 0, "a"),
        change("file1", 0, "b"),
        change("file2", 0, "c"),
        change("missing", 0, "d"),
    ];
    let effects = actor.maybe_write_files_changed_in_file_deltas(&file_deltas);
    assert_eq!(
        writes(&effects),
        vec![
            (format!("{BASE_DIR}/file2"), "content2".to_string()),
            (format!("{BASE_DIR}/file1"), "content1".to_string()),
        ],
    );
}

#[test]
#[should_panic]
fn test_file_path_for_uri_fails_not_absolute() {
    let actor = setup_for_testing();

    let uri = "this/is/absolutely/not/absolute";
    assert_eq!(actor.uri_problem(uri), None);
    actor.file_path_for_uri(uri);
}

#[test]
#[should_panic]
fn test_file_path_for_uri_fails_not_within_base_dir() {
    let actor = setup_for_testing();

    let uri = "/this/is/not/the/base_dir/file";
    assert_eq!(actor.uri_problem(uri), None);
    actor.file_path_for_uri(uri);
}

#[test]
#[should_panic]
fn test_file_path_for_uri_fails_only_base_dir() {
    let actor = setup_for_testing();

    assert_eq!(actor.uri_problem(BASE_DIR), None);
    actor.file_path_for_uri(BASE_DIR);
}

#[test]
fn uri_problems_are_told_apart() {
    let actor = setup_for_testing();
    assert_eq!(
        actor.uri_problem("this/is/absolutely/not/absolute"),
        Some(UriProblem::NotAbsolute)
    );
    assert_eq!(
        actor.uri_problem("/this/is/not/the/base_dir/file"),
        Some(UriProblem::OutsideBaseDir)
    );
    assert_eq!(actor.uri_problem(BASE_DIR), Some(UriProblem::NoSlash));
    assert_eq!(actor.uri_problem(&format!("{BASE_DIR}2/file")), Some(UriProblem::NoSlash));
}

#[test]
fn test_file_path_for_uri_works() {
    let actor = setup_for_testing();

    let file_paths = vec!["afile", "adir/with/some/file", "just/adir/"];
    let prefix_options = vec!["file://", ""];
    for prefix in prefix_options {
        for &expected in &file_paths {
            let uri = format!("{}{}/{}", prefix, BASE_DIR, expected);

            assert_eq!(actor.uri_problem(&uri), None);
            assert_eq!(actor.file_path_for_uri(&uri), expected);
        }
    }
}

#[test]
fn test_simulate_editor_edits() {
    let actor = setup_for_testing().read_current_content_from_dir(filesystem_for_testing());

    let file_path = "file1".to_string();

    let (actor, result) = actor.open_file_path(file_path.clone());
    assert!(result.is_ok());

    let delta = rev_ed_delta_single(0, (0, 0), (0, 0), "foobar");
    let (actor, result) = actor.apply_delta_to_ot(&delta, "file1");
    let (editor_delta_for_crdt, rev_ed_text_deltas) = match result {
        Ok(deltas) => deltas,
        Err(fault) => panic!("{}", fault.description()),
    };
    let (actor, _) = actor.apply_delta_to_doc(&editor_delta_for_crdt, &file_path);

    // Confirm nothing transformed needs to go to editor.
    assert_eq!(rev_ed_text_deltas, vec![]);

    // Confirm edit was applied.
    assert_file_content(&actor, &file_path, "foobarcontent1");
}

#[test]
fn opening_a_missing_file_fails() {
    let (actor, result) = setup_for_testing().handle_message(open("missing"));
    match result {
        Err(fault) => assert_eq!(
            fault.description(),
            "Could not open file missing, because it doesn't exist in the CRDT"
        ),
        Ok(_) => panic!("opened"),
    }
    assert!(!actor.ot_servers.contains_key("missing"));
}

#[test]
fn editing_an_open_file_without_text_fails() {
    let actor = setup_for_testing().read_current_content_from_dir(filesystem_for_testing());
    let (mut actor, _) = handle(actor, open("file1"));
    actor.crdt_doc.files.clear();
    let delta = rev_ed_delta_single(0, (0, 0), (0, 0), "x");
    let message = DocMessage::FromEditor(EditorProtocolMessageFromEditor::Edit {
        delta,
        uri: uri("file1"),
    });
    let (actor, result) = actor.handle_message(message);
    match result {
        Err(ActorFault::NoText) => {}
        _ => panic!("edited"),
    }
    assert!(actor.ot_servers.contains_key("file1"));
}

#[test]
fn messages_are_refused() {
    let actor = setup_for_testing().read_current_content_from_dir(filesystem_for_testing());
    let delta = rev_ed_delta_single(0, (0, 0), (0, 0), "x");
    let edit = EditorProtocolMessageFromEditor::Edit { delta, uri: uri("file1") };
    assert_eq!(actor.refuses(&edit), Some(Refusal::NotOpen));
    let cursor = EditorProtocolMessageFromEditor::Cursor { uri: "/etc/x".into(), ranges: vec![] };
    assert_eq!(actor.refuses(&cursor), Some(Refusal::Uri(UriProblem::OutsideBaseDir)));
    let (actor, _) = handle(actor, open("file1"));
    assert_eq!(actor.refuses(&edit), None);
    let close = EditorProtocolMessageFromEditor::Close { uri: uri("file1") };
    let (actor, effects) = handle(actor, DocMessage::FromEditor(close));
    assert!(effects.is_empty());
    assert_eq!(actor.refuses(&edit), Some(Refusal::NotOpen));
}

#[test]
fn an_edit_goes_into_the_document_and_not_to_the_disk() {
    let actor = setup_for_testing().read_current_content_from_dir(filesystem_for_testing());
    let (actor, _) = handle(actor, open("file1"));
    let delta = rev_ed_delta_single(0, (0, 7), (0, 8), "!");
    let edit = EditorProtocolMessageFromEditor::Edit { delta, uri: uri("file1") };
    let (actor, effects) = handle(actor, DocMessage::FromEditor(edit));
    assert_file_content(&actor, "file1", "content!");
    assert_eq!(effects.len(), 1);
    assert!(matches!(effects[0], Effect::DocumentChanged));
}

#[test]
fn what_the_server_answers_is_sent() {
    let actor = setup_for_testing().read_current_content_from_dir(filesystem_for_testing());
    let (actor, _) = handle(actor, open("file1"));
    let (actor, _) = actor.maybe_process_crdt_file_deltas_in_ot(vec![change("file1", 0, "a")]);
    let delta = rev_ed_delta_single(0, (0, 0), (0, 0), "x");
    let edit =
        EditorProtocolMessageFromEditor::Edit { delta: delta.clone(), uri: uri("file1") };
    let (_, effects) = handle(actor, DocMessage::FromEditor(edit));
    assert_eq!(
        sent(&effects),
        vec![EditorProtocolMessageToEditor::Edit { uri: uri("file1"), delta }],
    );
}

#[test]
fn a_changed_file_is_written_or_told() {
    let actor = setup_for_testing().read_current_content_from_dir(filesystem_for_testing());
    let (actor, _) = handle(actor, open("file2"));
    let range = Range {
        start: Position { line: 0, character: 1 },
        end: Position { line: 0, character: 2 },
    };
    let message = vec![
        PatchEffect::FileChange(change("file1", 0, "1")),
        PatchEffect::NoEffect,
        PatchEffect::CursorChange(CursorState {
            userid: "bob".into(),
            file_path: "file1".into(),
            ranges: vec![range],
        }),
        PatchEffect::FileChange(change("file2", 0, "2")),
        PatchEffect::FileChange(change("file1", 0, "3")),
    ];
    let (actor, effects) = handle(actor, DocMessage::ReceiveSyncMessage { message, state: 4 });
    assert_file_content(&actor, "file1", "31content1");
    assert_file_content(&actor, "file2", "2content2");
    assert_eq!(
        writes(&effects),
        vec![(format!("{BASE_DIR}/file1"), "31content1".to_string())],
    );
    assert_eq!(
        sent(&effects),
        vec![
            EditorProtocolMessageToEditor::Edit {
                uri: uri("file2"),
                delta: rev_ed_delta_single(1, (0, 0), (0, 0), "2"),
            },
            EditorProtocolMessageToEditor::Cursor {
                name: None,
                userid: "bob".into(),
                uri: uri("file1"),
                ranges: vec![range],
            },
        ],
    );
    assert!(matches!(effects[0], Effect::DocumentChanged));
    assert!(matches!(effects[1], Effect::WriteFile { .. }));
    assert!(matches!(effects.last(), Some(Effect::AnswerSyncState(5))));
    assert_eq!(effects.len(), 5);
}

#[test]
fn requests_are_answered_once() {
    let mut actor = setup_for_testing();
    actor.crdt_doc.files.insert(TEST_FILE_PATH.to_string(), "hello".to_string());
    let (actor, effects) = handle(actor, DocMessage::GetContent);
    assert_eq!(effects.len(), 1);
    match &effects[0] {
        Effect::AnswerContent(content) => assert_eq!(content.as_deref(), Ok("hello")),
        _ => panic!("no content"),
    }
    let (actor, effects) = handle(actor, DocMessage::GenerateSyncMessage { state: 3 });
    assert_eq!(effects.len(), 1);
    assert!(matches!(&effects[0], Effect::AnswerSyncMessage(13, Some(_))));
    assert_eq!(actor.crdt_doc.generated, 1);
    let (_, effects) = handle(setup_for_testing(), DocMessage::GetContent);
    match &effects[0] {
        Effect::AnswerContent(content) => assert_eq!(content.as_deref(), Err(&"no text".to_string())),
        _ => panic!("no answer"),
    }
}

#[test]
fn cursors_of_the_own_user_are_stored() {
    let range = Range {
        start: Position { line: 2, character: 3 },
        end: Position { line: 4, character: 5 },
    };
    let cursor = EditorProtocolMessageFromEditor::Cursor { uri: uri("a"), ranges: vec![range] };
    let (actor, effects) = handle(setup_for_testing(), DocMessage::FromEditor(cursor));
    assert_eq!(
        actor.crdt_doc.cursors,
        vec![("me".to_string(), "a".to_string(), vec![range])],
    );
    assert_eq!(effects.len(), 1);
    assert!(matches!(effects[0], Effect::DocumentChanged));
}

#[test]
fn random_edits_change_the_test_file() {
    let mut actor = setup_for_testing();
    actor.crdt_doc.files.insert(TEST_FILE_PATH.to_string(), "0123456789".to_string());
    for _ in 0..50 {
        let before = actor.current_file_content(TEST_FILE_PATH).unwrap().chars().count();
        let (next, effects) = handle(actor, DocMessage::RandomEdit);
        actor = next;
        let text = actor.current_file_content(TEST_FILE_PATH).unwrap();
        let after = text.chars().count();
        assert!(before + 1 <= after && after <= before + 4);
        assert!(matches!(effects[0], Effect::DocumentChanged));
        assert_eq!(writes(&effects), vec![(format!("{BASE_DIR}/text"), text)]);
    }
}

#[test]
fn random_edits_of_an_open_file_are_told() {
    let mut actor = setup_for_testing();
    actor.crdt_doc.files.insert(TEST_FILE_PATH.to_string(), "0123456789".to_string());
    let (actor, _) = handle(actor, open("text"));
    let (_, effects) = handle(actor, DocMessage::RandomEdit);
    assert_eq!(writes(&effects), vec![]);
    assert_eq!(sent(&effects).len(), 1);
}

#[test]
fn random_edits_need_the_test_file() {
    let (_, result) = setup_for_testing().handle_message(DocMessage::RandomEdit);
    match result {
        Err(fault) => assert_eq!(
            fault.description(),
            "Should have initialized text before performing random edit"
        ),
        Ok(_) => panic!("edited"),
    }
}

#[test]
fn editors_come_and_go() {
    let actor = setup_for_testing();
    assert!(actor.editor_clients.is_empty());
    let (actor, _) = handle(actor, DocMessage::NewEditorConnection);
    assert!(actor.editor_clients.contains(&0));
    let (actor, _) = handle(actor, DocMessage::CloseEditorConnection);
    assert!(actor.editor_clients.is_empty());
    let (actor, _) = handle(actor, DocMessage::NewEditorConnection);
    let actor = actor.remove_unreachable(&vec![(EditorId(0), true), (EditorId(1), false)]);
    assert!(actor.editor_clients.contains(&0));
    let actor = actor.remove_unreachable(&vec![(EditorId(0), false)]);
    assert!(actor.editor_clients.is_empty());
}

#[test]
fn messages_have_names() {
    let names: Vec<String> = vec![
        Message::GetContent,
        open("a"),
        Message::RandomEdit,
        Message::ReceiveSyncMessage { message: vec![], state: 0 },
        Message::GenerateSyncMessage { state: 0 },
        Message::NewEditorConnection,
        Message::CloseEditorConnection,
    ]
    .iter()
    .map(|message| message.name())
    .collect();
    assert_eq!(
        names,
        vec![
            "get content",
            "open/close/edit/... message from editor",
            "random edit",
            "<automerge internal sync rcv>",
            "<automerge internal sync gen>",
            "editor connected",
            "editor disconnected",
        ],
    );
}

#[test]
fn absolute_paths_are_in_the_base_dir() {
    let actor = setup_for_testing();
    assert_eq!(actor.absolute_path_for_file_path("sub/file3"), "/home/alice/project/sub/file3");
}

use ethersync::editor::unix::EditorUnix;
use ethersync::editor::windows::EditorWindows;
use ethersync::editor::{unix, windows};
use ethersync::editor::{
    event_of_read, get_fallback_socket_dir, get_socket_path, is_user_readable_only,
    is_valid_socket_name, EditorEvent, EditorProtocolCodec, SocketDirProblem, SocketNameProblem,
};
use tokio_util::bytes::BytesMut;

#[test]
fn messages_are_lines() {
    let mut buffer = BytesMut::new();
    let first: Result<String, u8> = Ok("{\"id\": 1}".to_string());
    let second: Result<String, u8> = Ok("\u{fc}".to_string());
    assert_eq!(EditorProtocolCodec.encode(first, &mut buffer), Ok(()));
    assert_eq!(EditorProtocolCodec.encode(second, &mut buffer), Ok(()));
    assert_eq!(&buffer[..], "{\"id\": 1}\n\u{fc}\n".as_bytes());
}

#[test]
fn messages_without_json_are_not_written() {
    let mut buffer = BytesMut::from(&b"before\n"[..]);
    let failure: Result<String, &str> = Err("not serializable");
    assert_eq!(EditorProtocolCodec.encode(failure, &mut buffer), Err("not serializable"));
    assert_eq!(&buffer[..], b"before\n");
}

#[test]
fn socket_names_are_plain_filenames() {
    for name in ["ethersync", "ethersync/", "a.b", "...", "with space", "name//", "name/."] {
        assert_eq!(is_valid_socket_name(name), Ok(()), "{name}");
    }
    for name in ["", "a/b", "../a", "/a", "./a", "a/.."] {
        assert_eq!(is_valid_socket_name(name), Err(SocketNameProblem::NotSingle), "{name}");
    }
    for name in [".", "..", "/", "../", "./", "//"] {
        assert_eq!(is_valid_socket_name(name), Err(SocketNameProblem::NotPlain), "{name}");
    }
    assert_eq!(
        SocketNameProblem::NotSingle.description(),
        "The socket name must be a single path component"
    );
    assert_eq!(
        SocketNameProblem::NotPlain.description(),
        "The socket name must be a plain filename"
    );
}

#[test]
fn socket_names_agree_with_std() {
    let names = ["", "a", "a/", "/a", ".", "./", "./a", "..", "../", "a/b", "//", "a/./.", "a//."];
    for name in names {
        let components: Vec<std::path::Component> =
            std::path::Path::new(name).components().collect();
        let valid = matches!(components[..], [std::path::Component::Normal(_)]);
        assert_eq!(is_valid_socket_name(name).is_ok(), valid, "{name}");
    }
}

#[test]
fn sockets_are_in_the_runtime_dir_or_the_fallback_dir() {
    assert_eq!(get_fallback_socket_dir("alice"), "/tmp/ethersync-alice");
    assert_eq!(
        get_socket_path(Some("/run/user/1000"), "alice", "ethersync"),
        "/run/user/1000/ethersync"
    );
    assert_eq!(get_socket_path(Some("/run/"), "alice", "ethersync"), "/run/ethersync");
    assert_eq!(get_socket_path(Some(""), "alice", "ethersync"), "ethersync");
    assert_eq!(get_socket_path(None, "alice", "ethersync"), "/tmp/ethersync-alice/ethersync");
    let editor = EditorUnix { socket_name: "sock".to_string() };
    assert_eq!(editor.get_socket_path(Some("/run"), "bob"), "/run/sock");
    assert_eq!(editor.get_socket_path(None, "bob"), "/tmp/ethersync-bob/sock");
}

#[test]
fn socket_dirs_must_be_private() {
    let path = "/run/user/1000/ethersync";
    assert_eq!(is_user_readable_only(path, Some(0o40700)), Ok(()));
    assert_eq!(is_user_readable_only(path, Some(0o700)), Ok(()));
    for mode in [0o40755, 0o40500, 0o40701, 0o41700] {
        assert_eq!(is_user_readable_only(path, Some(mode)), Err(SocketDirProblem::NotUserOnly));
    }
    assert_eq!(is_user_readable_only(path, None), Err(SocketDirProblem::NoMetadata));
    assert_eq!(is_user_readable_only("/", Some(0o40700)), Err(SocketDirProblem::NoParent));
    assert_eq!(is_user_readable_only("", Some(0o40700)), Err(SocketDirProblem::NoParent));
}

#[test]
fn socket_dirs_of_unix_editors_must_be_closed_to_others() {
    let path = "/run/user/1000/ethersync";
    for mode in [0o40700, 0o40500, 0o41700] {
        assert_eq!(unix::is_user_readable_only(path, Some(mode)), Ok(()));
    }
    for mode in [0o40755, 0o40701, 0o40710] {
        assert_eq!(
            unix::is_user_readable_only(path, Some(mode)),
            Err(SocketDirProblem::NotUserOnly)
        );
    }
    assert_eq!(unix::is_user_readable_only(path, None), Err(SocketDirProblem::NoMetadata));
    assert_eq!(unix::is_user_readable_only("/", None), Err(SocketDirProblem::NoParent));
}

#[test]
fn problems_have_descriptions() {
    assert_eq!(
        SocketDirProblem::NoParent.description(),
        "The socket path should not be the root directory"
    );
    assert_eq!(SocketDirProblem::NoMetadata.description(), "Expected to have metadata of parent");
    assert_eq!(
        SocketDirProblem::NotUserOnly.description(),
        "For security reasons, the socket's parent dir must only be accessible by the current user"
    );
    assert_eq!(
        unix::description(SocketDirProblem::NoParent),
        "The socket path should not be the root directory"
    );
    assert_eq!(
        unix::description(SocketDirProblem::NoMetadata),
        "Expected to have access to metadata of the socket path's parent"
    );
    assert_eq!(
        unix::description(SocketDirProblem::NotUserOnly),
        "For security reasons, the parent directory of the socket must only be accessible by the current user"
    );
}

#[test]
fn pipes_have_full_names() {
    let short = EditorWindows.get_socket_path();
    assert_eq!(short, "ethersync_pipe");
    let full = windows::pipe_name(&short);
    assert_eq!(full, r"\\.\pipe\ethersync_pipe");
    assert_eq!(windows::pipe_name(&full), full);
    assert_eq!(windows::pipe_name(r"C:\Temp\ethersync_win.sock"), r"\\.\pipe\ethersync_win.sock");
    assert_eq!(windows::pipe_name(r"C:\Temp\"), r"\\.\pipe\");
}

#[test]
fn reads_become_events() {
    let line: Option<Result<String, u8>> = Some(Ok("hello".to_string()));
    match event_of_read(3, line) {
        EditorEvent::Line(3, line) => assert_eq!(line, "hello"),
        _ => panic!("no line"),
    }
    let failed: Option<Result<String, u8>> = Some(Err(1));
    assert!(matches!(event_of_read(3, failed), EditorEvent::Disconnected(3)));
    let end: Option<Result<String, u8>> = None;
    assert!(matches!(event_of_read(4, end), EditorEvent::Disconnected(4)));
}

# ethersync

The logic of a daemon that lets people edit the files of a directory together, each in their own
editor. The library in `src/` is written in Verus: what each function does is stated in its
contract and proved.

- `daemon`: the actor that owns the shared document. A message turns the actor into the next one,
  and brings effects (answers, files to write, messages to editors).
- `editor_connection`: one connection to an editor, with an OT server for each open file.
- `editor`: the socket of the editors, and the lines that are written to it.
- `jsonrpc_forwarder`: the codec with `Content-Length` headers.
- `ignore`: which files are not shared.
- `document` and `ot`: what the daemon asks of the shared document and of an OT server. Nothing is
  assumed of them; contracts relate their states before and after each call.
- `types`, `uri`, `path`, `text`, `decimal`, `file_map`, `buffer`, `random_edit`: what these are
  built from.

Proof functions whose names begin with `law_` state what holds of several functions together: that
frames are read back as they were written, that the daemon never writes a file that an editor has
open, that each request is answered once, that a refused message changes nothing, and more.

`app/` is the ordinary Rust around the library: tasks, channels, sockets and files.

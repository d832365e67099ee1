//! The logic of a daemon for local-first collaborative editing: the protocol with the editors, the
//! ownership of files, the synchronization of the shared document, and the framing of messages.
pub mod buffer;
pub mod daemon;
pub mod decimal;
pub mod document;
pub mod editor;
pub mod editor_connection;
pub mod file_map;
pub mod ignore;
pub mod jsonrpc_forwarder;
pub mod ot;
pub mod path;
pub mod random_edit;
pub mod text;
pub mod types;
pub mod uri;

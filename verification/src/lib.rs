//! Release notes, build identity and the incarnation token of the herdr server.

pub mod build_info;
pub mod paths;
pub mod release_notes;
pub mod release_notes_laws;
pub mod server_epoch;
pub mod session;
pub mod text;
pub mod text_laws;
pub mod update;
pub mod update_laws;

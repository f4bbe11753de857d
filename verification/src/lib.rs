//! Client side of the Language Server Protocol transport used by the editor:
//! message framing, request correlation, notification routing and the
//! decisions of the client's event loop.

pub mod correlator;
pub mod editor;
pub mod filetree;
pub mod framing;
pub mod json;
pub mod lsp;
pub mod path;
pub mod syntax;

//! Mirrors a website onto local storage: maps URLs to mirror paths, picks the
//! asset URLs out of rendered pages, and plans where each task's content goes.
pub mod assets;
pub mod session;
pub mod task;
pub mod text;
pub mod url;

pub use assets::{parse_html, url_to_asset_to_be_downloaded, ArchiveScope, ParsedHtml};
pub use session::{Save, Session, SessionError};
pub use task::{compose_document, Placement, Task, TaskError, DESERIALIZATION_ERROR};
pub use url::{extract_url_last_part, remove_scheme_and_last_path_part_from_url};

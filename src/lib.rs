//! Turning a directory tree into one flat text document: which entries are
//! visited and in what order, which files are kept, how each is labelled,
//! and the exact text block written for each.

pub mod classify;
pub mod document;
pub mod laws;
pub mod paths;
pub mod walker;

pub use classify::{file_extension, is_binary_content, is_image_extension, is_image_file, should_skip_file, PROBE_LEN};
pub use document::render_block;
pub use paths::{file_label, is_excluded_path, join_path, repository_name, strip_root_path, LabelMode};
pub use walker::{Output, Reply, Request, Walker};

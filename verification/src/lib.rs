//! End-of-line conversion between the working copy of a repository and its
//! store: which conversion a file is to get, and the conversion itself.
pub mod eol;
pub mod git;
pub mod git_attributes;
pub mod laws;
pub mod local_working_copy;
pub mod plumbing;
pub mod probe;
pub mod repo_path;
pub mod settings;
pub mod text;

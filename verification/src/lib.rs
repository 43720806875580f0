//! Small utilities of a desktop application shell: the pair of configuration
//! documents, the remembered last URL, localized download messages, and file
//! names that do not collide with files already saved.

pub mod config;
pub mod last_url;
pub mod message;
pub mod paths;
pub mod text;
pub mod unique_path;

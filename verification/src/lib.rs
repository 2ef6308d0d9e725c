//! Health checks for Unreal Engine project directories.
pub mod doctor;
pub mod finding;
pub mod json;
pub mod layout;
pub mod project_file;
pub mod seq_lemmas;
pub mod text;
pub mod laws;
pub mod rule_laws;

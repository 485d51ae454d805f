pub mod cache;
pub mod credential;
pub mod document;
pub mod laws;
pub mod refresh_ahead;
pub mod text;

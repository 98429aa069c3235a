//! What the server answers to its requests.
pub mod art;
pub mod chapters;
pub mod feeds;
pub mod media;
pub mod reply;
pub mod store;
pub mod transcript;

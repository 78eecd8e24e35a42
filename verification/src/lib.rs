//! A cache for media clips that are cut from remote sources: a content-addressed blob store,
//! the pipeline that creates a clip, a tee that copies the pipeline's output to the store while
//! the caller reads it, and the rules of the chat bot around them.

pub mod audio;
pub mod chat;
pub mod config;
pub mod digest;
pub mod fx;
pub mod interactions;
pub mod ioutils;
pub mod registry;
pub mod source;
pub mod text;

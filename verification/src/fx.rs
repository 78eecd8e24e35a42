//! Clips: their identity, the store that caches them, the pipeline that creates them, and the
//! controller that drafts and confirms them.

pub mod cached;
pub mod controller;
pub mod creator;
pub mod origin;
pub mod store;

pub use cached::{Acquisition, CachedCreator, CachedCreatorError, Media};
pub use controller::{
    Controller, DiscordOrigin, Fx, FxIdentity, FxWithMedia, GetFxError, MediaError, PreviewingFx,
    Repository, RepositoryAddError, RepositoryGetError,
};
pub use creator::{
    Creator, LaunchNext, LaunchStep, YoutubeDLCreateError, YoutubeDLCreator,
};
pub use origin::MediaOrigin;
pub use store::{
    Blobs, IoError, IoErrorKind, LocalStore, MemoryStore, PutAction, PutNext, PutStep, Store,
    StoreGetError,
    StorePutError,
};

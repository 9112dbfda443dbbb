pub mod directory;
pub mod instance;
pub mod json;
pub mod records;
pub mod search;
pub mod trending;
pub mod urls;

pub use directory::MirrorInstance;
pub use instance::FetchError;
pub use instance::Instance;
pub use json::JsonValue;
pub use records::YoutubeVideo;
pub use trending::MirrorScan;

//! The store: the catalogue with one row per key, and the append-only logs.

pub mod cache_repo;
pub mod iss_repo;
pub mod osdr_repo;

pub use cache_repo::CacheRepo;
pub use iss_repo::IssRepo;
pub use osdr_repo::OsdrRepo;

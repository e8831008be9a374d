//! The outbound side: the retrying fetcher and the request builders of each source.

pub mod base_client;
pub mod iss_client;
pub mod nasa_client;
pub mod spacex_client;

pub use base_client::BaseClient;
pub use iss_client::IssClient;
pub use nasa_client::NasaClient;
pub use spacex_client::SpacexClient;

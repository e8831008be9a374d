//! The coordinators: what is done with a payload once it is fetched, and the
//! scheduler that decides when they run.

pub mod iss_service;
pub mod osdr_service;
pub mod scheduler;
pub mod space_service;

pub use iss_service::IssService;
pub use osdr_service::OsdrService;
pub use space_service::SpaceService;

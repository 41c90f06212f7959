//! A small people directory: the records it keeps, the in-memory repository
//! that stores them, the statements that a PostgreSQL-backed repository sends,
//! and the HTTP routing and reply decisions of its web service.

pub mod error;
pub mod person;
pub mod replies;
pub mod repository;
pub mod routes;
pub mod statements;
pub mod table;
pub mod text;

pub use error::WebappError;
pub use person::{Person, PersonNoId, PersonPatch};
pub use repository::{MockRepository, PersonRepository};

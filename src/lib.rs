pub mod text;
pub mod token;
pub mod domain;
pub mod store;
pub mod routes;

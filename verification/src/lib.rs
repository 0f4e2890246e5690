//! Regional compliance for drone flight operations: the reconciliation engine
//! that tracks flight requests against a regional authority and keeps
//! geospatial reference data current.

pub mod amqp;
pub mod cache;
pub mod geo;
pub mod grpc;
pub mod jobs;
pub mod region;
pub mod time;

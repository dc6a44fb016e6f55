//! A client-side model of the TinyURL shortening service: it builds the
//! request for a long URL and reads the service's reply.

pub mod form;
pub mod outcome;
pub mod request;
pub mod web;

pub use outcome::interpret;
pub use outcome::report;
pub use outcome::Report;
pub use outcome::ShortenError;
pub use request::TinyURL;

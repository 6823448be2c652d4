//! Generation of a route registry expression from a list of route names.
//!
//! A route list such as `a_route, another_route` becomes the Rust expression
//! `vec![Box::new(self::__a_route_mod__::a_route_handler::new()), ...]`.
//! The pipeline has three verified stages: [`parser`] checks the list and
//! yields route names, [`resolver`] derives each name's module and constructor
//! path, and [`emitter`] renders the ordered collection. [`routes`] chains
//! them and [`laws`] states the properties that hold across calls.
pub mod token;
pub mod ident;
pub mod parser;
pub mod resolver;
pub mod emitter;
pub mod routes;
pub mod laws;

pub use routes::create_routes;

//! An attribute-based access-control decision engine: given a request context
//! (who acts, what action, on what resource, with what ambient attributes) and
//! an ordered collection of policies, it decides which policy applies, with
//! deny-overrides-allow precedence and wildcard-aware field matching.

pub mod collections;
pub mod evaluation;
pub mod integration;
pub mod matching;
pub mod model;

pub use collections::StringMap;
pub use collections::StringSet;
pub use evaluation::evaluate;
pub use integration::Audit;
pub use integration::Authorized;
pub use integration::Database;
pub use integration::Identifier;
pub use integration::Unauthorized;
pub use integration::authorize;
pub use model::Action;
pub use model::Condition;
pub use model::Context;
pub use model::Effect;
pub use model::Policy;
pub use model::Principal;
pub use model::Resource;

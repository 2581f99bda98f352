//! The `OpenAPI` content contract: whether a JSON document is a sound
//! `OpenAPI` description, and whether it defines a bound operation.
//!
//! Well-formed here is a sound description: a JSON object that says which
//! `OpenAPI` it is, names its title and version, keeps its `paths` as an
//! object of templates that begin with `/`, gives every operation its
//! `responses` where the version requires it, and refers with `$ref` only to
//! what the document itself holds. Conformance is the operation: a contract
//! bound to `POST /orders` holds every description to defining that method
//! on that path, and one bound to `placeOrder` to an operation of that id.

pub mod contract;
pub mod description;
pub mod json;
pub mod laws;
pub mod openapi;
pub mod operation;
pub mod reporting;
pub mod stream;
pub mod text;

pub use contract::{ContractDescriptor, ContractError, ContractId, ValidationIssue, ValidationResult};
pub use description::{Declared, Description, METHODS};
pub use json::Json;
pub use openapi::{OpenApi, OpenApiFactory, defines, references, soundness};
pub use operation::Operation;
pub use stream::{Stream, StreamId};

//! JSON:API resource documents and the conversions between entities and them.
//!
//! The wire model lives in [`wire`], the relationships mapping in
//! [`relmap`], identifier decoding in [`ids`], relationship resolution in
//! [`relations`], the per-entity schema in [`schema`] and document assembly in
//! [`response`].

pub mod ids;
pub mod relations;
pub mod relmap;
pub mod response;
pub mod schema;
pub mod wire;

pub use ids::{FromID, IntoID, Uuid};
pub use relations::{FromRelationship, FromRelationships, IntoRelationship, IntoRelationships};
pub use relmap::RelationshipMap;
pub use schema::{
    FieldType, RelationField, RelationFieldDecl, RelationsSchema, RequestParts, ResourceShape,
};
pub use response::{FromRequest, IntoResponse, JsonApi, Resource, Response, ResponseType};
pub use wire::{
    Error, ErrorStatus, Identifier, Relationship, RelationshipData, Request, ResourceRequest,
    ResourceResponse, ID,
};

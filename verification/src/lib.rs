//! An XML object-mapping engine: values of a typed data model (structs,
//! enums, scalar leaves, optional and repeated fields, attributes and text
//! content) are serialized to a stream of lexical XML events and
//! deserialized back from one, following a data-driven schema.

pub mod events;
pub mod errors;
pub mod schema;
pub mod value;
pub mod text;
pub mod session;
pub mod ser;
pub mod de;
pub mod laws;
pub mod xmlio;

//! Map-backed records: the storage they live in, the rules that classify a
//! record's declared fields, and the plan of what is derived for them.
pub mod backing;
pub mod codegen;
pub mod laws;
pub mod record;
pub mod schema;
pub mod text;

pub use backing::{BackingMap, IterableMap};
pub use record::{Entry, FieldsOf, Record, Slot};
pub use schema::{FieldInfo, SchemaError, StructibleConfig};

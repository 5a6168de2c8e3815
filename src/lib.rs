pub mod client;
pub mod document;
pub mod error;
pub mod ids;
pub mod laws;
pub mod memory_store;
pub mod model;
pub mod names;
pub mod paths;
pub mod relations;
pub mod resource_path;
pub mod segments;

pub use error::Error;
pub use ids::{CollectionId, DatabaseId, DocumentId, ProjectId};
pub use names::{CollectionName, DatabaseName, DocumentName};
pub use paths::{CollectionPath, DocumentPath};

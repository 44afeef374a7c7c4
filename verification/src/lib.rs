//! A hierarchical rich-text document model with a verified wire codec.
//!
//! The model is a recursive tree of [`model::Node`] values; every model type
//! encodes to and decodes from the structured wire value [`value::Value`],
//! and the codec is proved to round-trip.

pub mod codec;
pub mod container;
pub mod error;
pub mod value;
pub mod ident;
pub mod model;

pub use error::Error;
pub use model::Chapter;
pub use model::Character;
pub use model::Document;
pub use model::HeadingLevel;
pub use model::ListItem;
pub use model::Node;
pub use model::NodeType;
pub use model::Project;
pub use model::Setting;
pub use model::TextFormat;
pub use model::TextNode;

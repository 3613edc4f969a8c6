//! Merging a freshly fetched batch into the stored items of a category.

pub mod modules;
pub mod resources;

pub use self::modules::merge_modules;
pub use self::resources::merge_resources;

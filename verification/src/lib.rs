pub mod archive;
pub mod diag;
pub mod digest;
pub mod extract;
pub mod json;
pub mod media;
pub mod model;
pub mod notes;
pub mod refs;
pub mod schema;
pub mod search;
pub mod seek;
pub mod snapshot;
pub mod template;
pub mod text;

pub mod frontmatter;
pub mod model;
pub mod service;
pub mod types;

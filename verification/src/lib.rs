pub mod cli;
pub mod dependency;
pub mod error;
pub mod metadata;
pub mod name;
pub mod ops;
pub mod text;
pub mod workspace;

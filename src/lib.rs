pub mod error;
pub mod export;
pub mod feature;
pub mod infer;
pub mod keyword;
pub mod laws;
pub mod line;
pub mod row;
pub mod step;
pub mod text;

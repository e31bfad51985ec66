//! Analysis of annotated handler signatures into a tagged instruction
//! dispatcher and the schema describing it.
pub mod error;
pub mod requirement;
pub mod variant;
pub mod payload;
pub mod dispatch;
pub mod shape;
pub mod parser;
pub mod entry;
pub mod index;
pub mod nft;
pub mod discovery;

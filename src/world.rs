pub mod block;
pub mod chunk;
pub mod edit;

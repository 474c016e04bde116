//! What the operations are for: what holds of their results, over what went in.
pub mod asking;
pub mod batches;
pub mod bodies;
pub mod branches;
pub mod connections;
pub mod densify;
pub mod engine;
pub mod feeding;
pub mod fetching;
pub mod headers;
pub mod leaving;
pub mod messages;
pub mod moving;
pub mod pipeline;
pub mod planting;
pub mod presence;
pub mod racing;
pub mod rejects;
pub mod rhythm;
pub mod rounds;
pub mod shown;
pub mod speed;
pub mod wave;

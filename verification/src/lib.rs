pub mod laws;
pub mod model;
pub mod pipeline;
pub mod progress;
pub mod split;
pub mod text;
pub mod token;
pub mod upload;

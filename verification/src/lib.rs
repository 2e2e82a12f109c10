pub mod category;
pub mod error;
pub mod json;
pub mod limiter;
pub mod pipeline;
pub mod stage;

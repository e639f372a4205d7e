pub mod timer;
pub mod sleep;
pub mod executor;
pub mod spawn;
pub mod runtime;

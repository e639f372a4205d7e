pub mod deque;
pub mod task;
pub mod workers;

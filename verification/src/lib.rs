pub mod conf;
pub mod digest;
pub mod extract;
pub mod fetch;
pub mod progress;

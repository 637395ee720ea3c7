pub mod batch;
pub mod cli;
pub mod download;
pub mod gate;
pub mod gist;
pub mod paginate;
pub mod text;
pub mod throttle;

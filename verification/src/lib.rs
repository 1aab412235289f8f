pub mod timing;
pub mod chars;
pub mod width;
pub mod client;
pub mod local;
pub mod laws;

pub mod json;
pub mod codec;
pub mod frame;
pub mod registry;
pub mod session;

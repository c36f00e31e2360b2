pub mod block;
pub mod content_format;
pub mod no_repeat;
pub mod observe;
pub mod repeat;

pub use block::Block;
pub use content_format::ContentFormat;
pub use observe::Action;

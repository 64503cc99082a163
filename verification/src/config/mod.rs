pub mod keymap;
pub mod mimetype;

pub use self::keymap::LllCommandMapping;
pub use self::mimetype::{LllMimetype, LllMimetypeEntry};

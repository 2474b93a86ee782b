//! Case-sensitive substring search over the lines of a text.
pub mod config;
pub mod laws;
pub mod search;
pub mod text;

pub use config::Config;
pub use search::search;
pub use text::chars_of;

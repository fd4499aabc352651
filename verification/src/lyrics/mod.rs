pub mod parser;
pub mod properties;
pub mod qqmusic;

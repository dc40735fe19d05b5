pub mod decode;
pub mod encode;
pub mod json;
pub mod laws;
pub mod number;
pub mod order;
pub mod parse;
pub mod partial;
pub mod serialize;
pub mod tag_storage;
pub mod text;
pub mod time;
pub mod util;
pub mod values;

pub mod byte_stream;
pub mod errors;
pub mod file_path;
pub mod header;
pub mod matcher;
pub mod nal_unit;
pub mod rbsp;
pub mod vec_nal_unit;

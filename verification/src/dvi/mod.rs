pub mod file;
pub mod file_reader;
pub mod file_writer;
pub mod interpreter;
pub mod parser;
pub mod roundtrip;

pub use file::{DVICommand, DVIFile};

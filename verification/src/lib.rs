//! The decisions of a benchmark that embeds the words of a document with an ONNX model.
//!
//! Whatever reads files, asks the runtime or waits is left to the program around this library.
//! Where decisions and such work alternate, the library offers a value that names the next
//! question and takes the answer.

pub mod chunks;
pub mod download;
pub mod libraries;
pub mod lists;
pub mod load;
pub mod model;
pub mod paths;
pub mod pool;
pub mod providers;
pub mod report;
pub mod startup;
pub mod text;

//! A memoizing recursive-descent (packrat) parsing engine for SQL text,
//! with the schema codecs and buffers that consume its output.
pub mod error;
pub mod sql_schema;
pub mod value;
pub mod combinator;
pub mod parser_space;
pub mod parse;
pub mod sql_parser;
pub mod bytes;
pub mod strings;
pub mod data_schema;
pub mod data_buffer;
pub mod catalog_types;
pub mod catalog_schema;
pub mod catalog_laws;

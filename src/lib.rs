//! Read-only decoding of DWG drawing containers: bit-level primitives,
//! container demultiplexing (R2000, R2004, R2007 families), object maps,
//! object records and entity bodies.
pub mod error;
pub mod byte_reader;
pub mod bit_reader;
pub mod bit_codec;
pub mod version;
pub mod objects;
pub mod object_map;
pub mod section_directory;
pub mod section_loader;
pub mod stream_view;
pub mod object_record;
pub mod object_header_r2000;
pub mod object_header_r2010;
pub mod object_type;
pub mod common;
pub mod polyline;
pub mod object_locator;
pub mod r2004;
pub mod r2007;
pub mod decoder;
pub mod api;
pub mod laws;
pub mod entities;
pub mod hatch;
pub mod dimension;

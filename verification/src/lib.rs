//! A codec for the binary STL (stereolithography) 3D-mesh file format.
//!
//! The format is a fixed little-endian layout: an opaque 80-byte header,
//! a 32-bit triangle count, and then one 50-byte record per triangle
//! (normal, three vertices, and a 16-bit attribute field).  The codec
//! never interprets the geometry: each 32-bit point component is carried
//! as its IEEE-754 bit pattern, copied between the byte stream and the
//! in-memory value unchanged.

pub mod bytes;
pub mod error;
pub mod laws;
pub mod stl;

pub use error::StlError;
pub use stl::{BinaryStlFile, BinaryStlHeader, Point3, Triangle};
pub use stl::{point_eq, read_point, read_stl, read_triangle, write_point, write_stl};

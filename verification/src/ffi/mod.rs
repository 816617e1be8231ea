//! FFI subsystem: C type layer, declaration parser, resource limits and
//! library name resolution.

pub mod limits;
pub mod types;
pub mod cdef_spec;
pub mod cdef_parser;
pub mod library;
pub mod struct_ops;

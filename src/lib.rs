//! Runtime services that compiled AWK programs call into: reference-counted
//! associative arrays, byte strings and their conversions, record and field
//! splitting, regex matching with a compile cache, built-in variables, and the
//! catalog of intrinsics that code generation declares on demand.

pub mod catalog;
pub mod convert;
pub mod maps;
pub mod regex_cache;
pub mod runtime;
pub mod split;
pub mod strings;

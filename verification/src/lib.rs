//! A small declarative configuration-parsing library.
//!
//! A configuration object is a list of named, typed fields with
//! caller-supplied default values.  A flat stream of string tokens is
//! consumed left to right: each token names a field, and the following
//! token(s) are parsed as that field's value according to the field's
//! declared type shape (scalar, enum of unit variants, vector, or a
//! nested composite).  The library also renders a help text listing
//! every field with a description of the token pattern its type expects.
//!
//! Every parsing and rendering function is specified against a
//! mathematical model (`ShapeModel`, `ValueModel`, sequences of
//! characters) and verified.

pub mod shape;
pub mod value;
pub mod scalar;
pub mod float_text;
pub mod parse;
pub mod config;
pub mod source;
pub mod laws;

pub use crate::config::Config;
pub use crate::parse::ConfigType;
pub use crate::shape::TypeShape;
pub use crate::value::ConfigValue;

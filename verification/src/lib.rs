//! Binding generation for classes exposed to an embedded Python runtime.
//!
//! A class is a struct declaration under an attribute. The arguments of the
//! attribute configure the class, markers on the members ask for
//! accessors, and from the two the generator decides what the runtime is
//! told about the class: its name and module, where its dict and
//! weak-reference slots come from, its base, its allocator, the guard on
//! access from other threads, and the order in which its methods and slots
//! are enumerated.
//!
//! The crate works on a syntax tree of plain data ([`syntax`], [`fields`],
//! [`item`]) and answers with plain data ([`class::ClassBinding`]); reading
//! source into the one and writing the other out as code is left to the
//! caller. Every function has a contract over the views of these types, and
//! what holds of the functions together is stated as proof functions beside
//! them.
//!
//! - [`args`]: the argument list of the attribute, parsed into one record.
//! - [`fields`]: the markers on a member and the accessors they ask for.
//! - [`class`]: the generator.

pub mod args;
pub mod class;
pub mod diagnostic;
pub mod fields;
pub mod ident;
pub mod item;
pub mod syntax;
pub mod text;

pub use args::PyClassArgs;
pub use class::build_py_class;

//! Build-time generator for typed bindings to widgets declared in GUI XML
//! files: it parses the markup, collects the named widgets, and synthesizes
//! a struct with one field per widget together with a constructor that loads
//! the markup and binds each field by its identifier.

pub mod codegen;
pub mod events;
pub mod names;

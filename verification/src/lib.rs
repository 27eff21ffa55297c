//! Decoding of EDIFACT interchanges of the edi@energy subset.
//!
//! An interchange is first split into raw segments by a lexer that honours
//! the service characters announced in an optional UNA segment. The raw
//! segments are then matched against the description of a message
//! integration guide, which yields either a tree of matched segments or a
//! tree of syntax errors.
pub mod mig;
pub mod text;
pub mod usecase;

//! The description of the use cases of a message, as a manual states them.
use crate::mig::either::Either;
use vstd::prelude::*;

verus! {

/// A manual defines multiple use cases for a given message
/// (e.g. UTILMD) and version (e.g. 5.1a).
pub struct Manual {
    pub message: String,
    pub version: String,
    pub use_cases: Vec<UseCase>,
}

/// A use case of a message: what identifies it, and what it says of the
/// segments and segment groups of the message.
pub struct UseCase {
    pub ident: Option<Identifier>,
    pub data: Vec<Either<Segmentgroup, Segment>>,
}

/// An `Identifier` is used to identify a use case, contained in
/// one or more EDIFACT messages of certain types.
pub struct Identifier {
    pub value: String,
}

/// What a use case says of a segment.
pub struct Segment {
    pub order: u16,
    pub name: String,
    pub necessities: Vec<Necessity>,
    pub elements: Vec<DataElement>,
}

/// What a use case says of a segment group.
pub struct Segmentgroup {
    pub order: u16,
    pub name: String,
    pub necessities: Vec<Necessity>,
    pub segments: Vec<Either<Segmentgroup, Segment>>,
}

/// What a use case says of a data element.
pub struct DataElement {
    pub label: String,
    pub op: Option<Op>,
    pub cond: Option<Condition>,
    pub values: Vec<Value>,
}

/// A code that a data element may hold in a use case.
pub struct Value {
    pub code: String,
    pub op: Option<(Op, Option<Condition>)>,
}

/// The `Necessity` describes, whether a `Segment` or `Segmentgroup`
/// *Must*, *Should* or *Can* occur.
pub enum Necessity {
    Must(Option<Condition>),
    Should(Option<Condition>),
    Can(Option<Condition>),
}

/// An `Op` defines logical operations, *xor*, *and* and *or*,
/// which, depending on the context have different meanings.
pub enum Op {
    X,
    U,
    O,
}

/// A condition: one that a guide states under a number, or two conditions
/// joined by an operation.
pub enum Condition {
    Ref(u16),
    Cond(Op, Box<Condition>, Box<Condition>),
}

} // verus!

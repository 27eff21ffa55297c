//! The use cases of a message: which segments, segment groups and data
//! elements a use case must, should or can hold, and under which
//! conditions.
pub mod description;

use crate::mig::either::Either;
use vstd::prelude::*;

verus! {

/// An `Identifier` names a use case by a value that stands at the place
/// `path` of a message.
pub struct Identifier {
    pub path: Vec<String>,
    pub value: String,
}

/// A use case of a message.
pub struct UseCase {
    pub ident: Identifier,
}

/// The `Necessity` describes, whether a `Segment` or `Segmentgroup`
/// *Must*, *Should* or *Can* occur.
pub enum Necessity {
    Must(Option<Condition>),
    Should(Option<Condition>),
    Can(Option<Condition>),
}

/// An `Op` defines logical operations, *xor*, *and* and *or*,
/// which, depending on the context have different meanings.
pub enum Op {
    X,
    U,
    O,
}

/// A condition: one that a guide states under a number, or two conditions
/// joined by an operation.
pub enum Condition {
    Ref(u16, String),
    Cond(Op, Box<Condition>, Box<Condition>),
}

/// What a use case says of a data element.
pub struct DataElement {
    pub op: Option<Op>,
    pub cond: Option<Condition>,
    pub values: Vec<Value>,
}

/// A code that a data element may hold in a use case.
pub struct Value {
    pub code: String,
    pub op: Option<(Op, Option<Condition>)>,
}

/// What a use case says of a segment.
pub struct Segment {
    pub order: u16,
    pub name: String,
    pub properties: Vec<Necessity>,
    pub elements: Vec<DataElement>,
}

/// What a use case says of a segment group.
pub struct Segmentgroup {
    pub order: u16,
    pub name: String,
    pub properties: Vec<Necessity>,
    pub segments: Vec<Either<Segmentgroup, Segment>>,
}

} // verus!

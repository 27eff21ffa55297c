//! A Message Integration Guide (MIG) is an industry specific specialization of
//! an international EDIFACT interchange standard (Electronic Data Interchange
//! for Administration, Commerce and Transport). EDIFACT interchanges are used
//! to electronically exchange business data between two or more parties.
//!
//! The german energy market uses the subset edi@energy to exchange customer
//! information between business partners. This subset defines multiple MIGs,
//! many containing multiple use cases.
pub mod decode;
pub mod description;
pub mod either;
pub mod error;
pub mod guide;

use crate::mig::decode::value::result_views;
use vstd::prelude::*;

verus! {

/// Decodes the text `input` against the first of the descriptions `known`:
/// the matched interchange, or why the text could not be decoded.
pub fn decode(known: Vec<description::Interchange>, input: &str) -> (r: Result<
    decode::value::Interchange,
    decode::Error,
>)
    requires
        known@.len() > 0,
        input@.len() < i32::MAX,
    ensures
        result_views(r) == decode::spec_decode(known@[0]@, input@),
{
    decode::decode(known, input)
}

} // verus!

//! The decode error taxonomy.

use vstd::prelude::*;

verus! {

/// Why decoding a wire value was rejected.  Encoding never fails, and the
/// heading-level codec absorbs out-of-range input instead of rejecting it,
/// so these arise only while decoding.
#[derive(Debug, Clone, Copy, PartialEq, Eq, Structural)]
pub enum Error {
    /// An identifier string does not match the grouped-hex grammar.
    MalformedIdentifier,
    /// A node-type tag names no known variant.
    UnknownNodeType,
    /// A required field is missing or has the wrong shape.
    IntegrityError,
}

} // verus!

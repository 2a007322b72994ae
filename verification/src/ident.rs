//! Post identifiers.

use vstd::prelude::*;

verus! {

/// The identity of a post: a 128-bit value, given once and never reused.
/// Posts and slug rows name a post by the same kind of value.
#[derive(Clone, Copy, Debug, PartialEq, Eq, Hash, Structural)]
pub struct PostId {
    pub value: u128,
}

/// Draws a new identifier: the bits of `uuid::Uuid::new_v4`, as
/// `Uuid::as_u128` packs them.
///
/// The value comes from the operating system's random numbers, so nothing is
/// claimed about it. Like uuid, it panics if the system has no random bytes
/// to give.
#[verifier::external_body]
pub(crate) fn fresh_id() -> (id: PostId) {
    PostId { value: uuid::Uuid::new_v4().as_u128() }
}

} // verus!

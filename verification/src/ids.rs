//! Identifiers: every tab, pane, split and profile is named by a 128-bit
//! UUID, held here as its `u128` value.

use vstd::prelude::*;

verus! {

/// The nil UUID (all bits zero); stands for "no profile".
pub const NIL_ID: u128 = 0;

/// The bits that a version-4 UUID always has set (version nibble and variant bit).
pub const V4_MARK: u128 = 0x40008000000000000000;

/// Fresh random identifier from `uuid::Uuid::new_v4`, as its `u128` value.
/// The crate masks random bits and then ORs in `V4_MARK`, so those bits are
/// always set (and the identifier is never nil); the rest is random and no
/// clause speaks of it.
#[verifier::external_body]
pub(crate) fn new_id() -> (id: u128)
    ensures
        id & V4_MARK == V4_MARK,
{
    uuid::Uuid::new_v4().as_u128()
}

/// A fresh identifier is never the nil identifier.
pub proof fn lemma_marked_id_not_nil(id: u128)
    requires
        id & V4_MARK == V4_MARK,
    ensures
        id != NIL_ID,
{
    assert(id & 0x40008000000000000000u128 == 0x40008000000000000000u128 ==> id != 0u128)
        by (bit_vector);
}

} // verus!

//! Replies travel back as their own transaction, under a code no method can have.
use vstd::prelude::*;

verus! {

/// The reply-carrying transaction code. Generated method codes start at 8, so this can
/// never collide with one.
pub const REPLY_CODE: u32 = 0;

} // verus!

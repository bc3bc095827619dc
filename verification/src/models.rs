//! Plain data holders exchanged with callers.

use vstd::prelude::*;

verus! {

/// A user profile as callers exchange it. The core treats it as an opaque
/// payload; it carries no invariant of its own.
#[derive(Debug, Clone, PartialEq, Eq)]
pub struct UserProfile {
    pub id: String,
    pub username: String,
    pub display_name: String,
}

} // verus!

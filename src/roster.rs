//! Members of a community's team.

use vstd::prelude::*;

verus! {

/// A member of a community, as the roster shows it.
#[derive(Debug)]
pub struct Users {
    pub id: u64,
    pub name: String,
    pub avatar_url: Option<String>,
}

} // verus!

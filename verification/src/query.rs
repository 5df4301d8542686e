//! Matching pairs of entities against a query. Entities are identified by their bits.

use vstd::prelude::*;

verus! {

/// Orders two entities so that the one matching a query comes first: the first entity if it
/// matches, otherwise the second if it matches, otherwise `None`.
pub fn distinguish_by_query(
    entity_0: u64,
    entity_1: u64,
    matches_0: bool,
    matches_1: bool,
) -> (r: Option<(u64, u64)>)
    ensures
        r == if matches_0 {
            Some((entity_0, entity_1))
        } else if matches_1 {
            Some((entity_1, entity_0))
        } else {
            None
        },
{
    if matches_0 {
        Some((entity_0, entity_1))
    } else if matches_1 {
        Some((entity_1, entity_0))
    } else {
        None
    }
}

} // verus!

use vstd::prelude::*;

use crate::services::ServiceId;
use crate::utils::text::{distinct_ids, first_duplicate, views_of};

verus! {

/// Checks that no service identification occurs twice; an application's services must be
/// told apart by their identifications.
pub fn unique_ids(to_check: &[ServiceId]) -> (r: bool)
    ensures
        r == distinct_ids(views_of(to_check@)),
{
    first_duplicate(to_check).is_none()
}

} // verus!

//! Stable ids of scenes and sources (random UUIDs).
use vstd::prelude::*;

use uuid::Uuid;

verus! {

/// Ids are carried and compared whole; nothing here looks inside one.
#[verifier::external_type_specification]
#[verifier::external_body]
pub struct ExUuid(Uuid);

/// `Uuid` is `Copy`, so a clone is the same value.
pub assume_specification[<Uuid as Clone>::clone](u: &Uuid) -> (r: Uuid)
    ensures
        r == *u,
;

/// Whether two ids are equal (`Uuid`'s derived `==`, which compares the
/// sixteen bytes).
#[verifier::external_body]
pub(crate) fn same_id(a: &Uuid, b: &Uuid) -> (r: bool)
    ensures
        r == (*a == *b),
{
    a == b
}

/// A fresh random id (`Uuid::new_v4`); nothing is promised of its value.
#[verifier::external_body]
pub(crate) fn new_id() -> (r: Uuid) {
    Uuid::new_v4()
}

/// Whether an optional id holds `id`.
pub(crate) fn holds_id(a: &Option<Uuid>, id: &Uuid) -> (r: bool)
    ensures
        r == (*a == Some(*id)),
{
    match a {
        Some(x) => same_id(x, id),
        None => false,
    }
}

} // verus!

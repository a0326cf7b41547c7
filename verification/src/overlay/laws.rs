//! What holds of an archive that is used as a map from names to files.

use crate::overlay::{laid_over, last_named};
use crate::pak::{encodable, well_formed, Record};
use vstd::prelude::*;

verus! {

/// The record found under a name has that name and no record behind it has;
/// where none is found, no record has that name.
pub proof fn lemma_last_named(rs: Seq<Record>, name: Seq<u8>)
    ensures
        match last_named(rs, name) {
            Some(i) => 0 <= i < rs.len() && rs[i].name == name && forall|j: int|
                i < j < rs.len() ==> rs[j].name != name,
            None => forall|j: int| 0 <= j < rs.len() ==> rs[j].name != name,
        },
    decreases rs.len(),
{
    if rs.len() > 0 && rs.last().name != name {
        lemma_last_named(rs.drop_last(), name);
        assert forall|j: int| 0 <= j < rs.len() - 1 implies rs[j] == rs.drop_last()[j] by {}
    }
}

/// The last record of a name is the one found under it.
pub proof fn lemma_last_named_is(rs: Seq<Record>, name: Seq<u8>, i: int)
    requires
        0 <= i < rs.len(),
        rs[i].name == name,
        forall|j: int| i < j < rs.len() ==> rs[j].name != name,
    ensures
        last_named(rs, name) == Some(i),
{
    lemma_last_named(rs, name);
}

/// What was laid over an archive is what is found under its name.
pub proof fn laid_over_is_found(rs: Seq<Record>, r: Record)
    ensures
        last_named(laid_over(rs, r), r.name) matches Some(i) && laid_over(rs, r)[i] == r,
{
    lemma_last_named(rs, r.name);
    match last_named(rs, r.name) {
        Some(i) => lemma_last_named_is(laid_over(rs, r), r.name, i),
        None => lemma_last_named_is(laid_over(rs, r), r.name, rs.len() as int),
    }
}

/// Laying a record over an archive changes nothing under any other name:
/// the same record is found, at the same place.
pub proof fn laid_over_keeps_other_names(rs: Seq<Record>, r: Record, name: Seq<u8>)
    requires
        name != r.name,
    ensures
        last_named(laid_over(rs, r), name) == last_named(rs, name),
        last_named(rs, name) matches Some(i) ==> laid_over(rs, r)[i] == rs[i],
{
    lemma_last_named(rs, r.name);
    lemma_last_named(rs, name);
    match last_named(rs, name) {
        Some(i) => lemma_last_named_is(laid_over(rs, r), name, i),
        None => lemma_last_named(laid_over(rs, r), name),
    }
}

/// Laying a record over an archive adds one record where its name is new and
/// none where it is not; no record is lost.
pub proof fn laid_over_len(rs: Seq<Record>, r: Record)
    ensures
        laid_over(rs, r).len() == if last_named(rs, r.name) is Some {
            rs.len()
        } else {
            rs.len() + 1
        },
{
    lemma_last_named(rs, r.name);
}

/// An archive that can be stored can still be stored after a record that
/// fits the format was laid over it.
pub proof fn laid_over_stays_well_formed(rs: Seq<Record>, r: Record)
    requires
        well_formed(rs),
        encodable(r),
    ensures
        well_formed(laid_over(rs, r)),
{
    lemma_last_named(rs, r.name);
}

} // verus!

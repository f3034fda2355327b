//! Turning the failure of a lock or a channel into a declared error.
//!
//! A lock that was poisoned and a channel whose other end is gone both answer with a
//! failure. The functions here take that answer and hand back either what was asked for
//! or an error of the caller's choosing.

use vstd::prelude::*;
use crate::declare::{Constructor, ErrorType};
use crate::error::{create_err, raised, Error, Field};

verus! {

/// The constructor that stands for a poisoned lock where none is named: the first
/// variant called `Poisoned`, if it takes no fields.
pub fn poisoned(ty: &ErrorType) -> (r: Option<Constructor>)
    ensures
        match r {
            Some(ctor) => {
                &&& ctor@.ty == ty@
                &&& ty@.first_named("Poisoned"@, ctor@.index as int)
                &&& ctor@.arity() == 0
            },
            None => forall|i: int|
                ty@.first_named("Poisoned"@, i) ==> (#[trigger] ty@.variants[i]).fields.len() != 0,
        },
{
    ty.variant_taking("Poisoned", 0)
}

/// The constructor that stands for a broken channel where none is named: the first
/// variant called `BrokenChannel`, if it takes no fields.
pub fn broken_channel(ty: &ErrorType) -> (r: Option<Constructor>)
    ensures
        match r {
            Some(ctor) => {
                &&& ctor@.ty == ty@
                &&& ty@.first_named("BrokenChannel"@, ctor@.index as int)
                &&& ctor@.arity() == 0
            },
            None => forall|i: int|
                ty@.first_named("BrokenChannel"@, i) ==> (#[trigger] ty@.variants[i]).fields.len()
                    != 0,
        },
{
    ty.variant_taking("BrokenChannel", 0)
}

/// Takes the answer of a lock or a channel: what it granted comes back as it is; its
/// failure comes back as the error that `ctor` builds from `fields` at `info`, whatever
/// the failure held.
pub fn guard<G, P, I>(outcome: Result<G, P>, ctor: &Constructor, info: I, fields: Vec<Field<I>>) -> (r:
    Result<G, Error<I>>)
    requires
        fields.len() == ctor@.arity(),
    ensures
        match outcome {
            Ok(granted) => r == Ok::<G, Error<I>>(granted),
            Err(_) => r matches Err(error) && error@ == raised(ctor@, info, fields@),
        },
{
    match outcome {
        Ok(granted) => Ok(granted),
        Err(_) => Err(create_err(ctor, info, fields)),
    }
}

} // verus!

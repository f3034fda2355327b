//! Raising errors and passing failures on.

use vstd::prelude::*;
use crate::declare::Constructor;
use crate::error::{
    create_err, field_models, lemma_field_models, raised, Error, ErrorModel, Field,
};
use crate::info::ErrorInfo;

verus! {

/// The result of an operation that fails with an error of a declared type. Without a
/// success type it is the result of an operation that yields nothing.
pub type Outcome<T = (), I = ErrorInfo> = Result<T, Error<I>>;

/// Success with `value`.
pub fn ok<T, I>(value: T) -> (r: Result<T, Error<I>>)
    ensures
        r == Ok::<T, Error<I>>(value),
{
    Ok(value)
}

/// Failure with the error that `ctor` builds from `fields` at `info`.
pub fn err<T, I>(ctor: &Constructor, info: I, fields: Vec<Field<I>>) -> (r: Result<T, Error<I>>)
    requires
        fields.len() == ctor@.arity(),
    ensures
        r matches Err(error) && error@ == raised(ctor@, info, fields@),
{
    Err(create_err(ctor, info, fields))
}

/// Unwraps a success, or passes the failure on: a success comes back as it is; a failure
/// comes back as the error that `ctor` builds at `info` from the cause, whole, and the
/// fields of `extra` after it.
pub fn attempt<T, I>(
    outcome: Result<T, Field<I>>,
    ctor: &Constructor,
    info: I,
    extra: Vec<Field<I>>,
) -> (r: Result<T, Error<I>>)
    requires
        ctor@.arity() == extra.len() + 1,
    ensures
        match outcome {
            Ok(value) => r == Ok::<T, Error<I>>(value),
            Err(cause) => r matches Err(error) && error@ == (ErrorModel {
                ctor: ctor@,
                info,
                fields: seq![cause@] + field_models(extra@),
            }),
        },
{
    match outcome {
        Ok(value) => Ok(value),
        Err(cause) => {
            let mut fields = extra;
            fields.insert(0, cause);
            assert(fields@ =~= seq![cause] + extra@);
            proof {
                lemma_cause_comes_first(cause, extra@);
            }
            Err(create_err(ctor, info, fields))
        },
    }
}

/// The fields of a passed-on failure stand for the cause, then for the extra fields.
proof fn lemma_cause_comes_first<I>(cause: Field<I>, extra: Seq<Field<I>>)
    ensures
        field_models(seq![cause] + extra) == seq![cause.model()] + field_models(extra),
{
    lemma_field_models(seq![cause] + extra);
    lemma_field_models(extra);
    assert(field_models(seq![cause] + extra) =~= seq![cause.model()] + field_models(extra));
}

} // verus!

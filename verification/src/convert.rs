//! Conversion edges: wrapping an error of one declared type into a variant of another.

use vstd::prelude::*;
use crate::declare::{Constructor, ConstructorModel, ErrorType};
use crate::error::{
    create_err, field_models, lemma_field_models, Error, ErrorModel, Field, FieldModel,
};

verus! {

/// What a conversion edge stands for: the name of the type it takes errors of, and the
/// variant it wraps them into.
pub struct ConversionModel {
    pub source: Seq<char>,
    pub target: ConstructorModel,
}

/// A conversion edge, declared once and used wherever an error of the source type has to
/// travel on as an error of the destination type.
#[derive(Debug, PartialEq, Eq)]
pub struct Conversion {
    source: String,
    target: Constructor,
}

impl View for Conversion {
    type V = ConversionModel;

    closed spec fn view(&self) -> ConversionModel {
        ConversionModel { source: self.source@, target: self.target@ }
    }
}

/// What an error of a conversion's source type becomes when it is converted at `info`:
/// an error of the destination variant whose one field is the source error, whole.
pub open spec fn converted<I>(edge: ConversionModel, source: ErrorModel<I>, info: I) -> ErrorModel<I> {
    ErrorModel { ctor: edge.target, info, fields: seq![FieldModel::Nested(Box::new(source))] }
}

/// Declares the edge from `source` to the variant of `target` that carries the name of
/// `source`. There is none where `target` has no such variant, or where that variant does
/// not take exactly one field.
pub fn impl_from_error(source: &ErrorType, target: &ErrorType) -> (r: Option<Conversion>)
    ensures
        match r {
            Some(edge) => {
                &&& edge@.source == source@.name
                &&& edge@.target.ty == target@
                &&& target@.first_named(source@.name, edge@.target.index as int)
                &&& edge@.target.arity() == 1
            },
            None => forall|i: int|
                target@.first_named(source@.name, i) ==> (#[trigger] target@.variants[i]).fields.len()
                    != 1,
        },
{
    match target.variant_taking(source.name(), 1) {
        Some(ctor) => Some(Conversion { source: String::from_str(source.name()), target: ctor }),
        None => None,
    }
}

/// Declares the edge from `source` to the variant that `target` builds. There is none
/// where that variant does not take exactly one field.
pub fn impl_from_error_into(source: &ErrorType, target: &Constructor) -> (r: Option<Conversion>)
    ensures
        match r {
            Some(edge) => {
                &&& edge@ == (ConversionModel { source: source@.name, target: target@ })
                &&& target@.arity() == 1
            },
            None => target@.arity() != 1,
        },
{
    if target.arity() == 1 {
        Some(Conversion { source: String::from_str(source.name()), target: target.clone() })
    } else {
        None
    }
}

impl Conversion {
    #[verifier::type_invariant]
    spec fn sound(&self) -> bool {
        self.target@.arity() == 1
    }

    /// The variant that the edge wraps errors into.
    pub fn target(&self) -> (ctor: &Constructor)
        ensures
            ctor@ == self@.target,
            ctor@.arity() == 1,
    {
        proof {
            use_type_invariant(self);
        }
        &self.target
    }

    /// The name of the type that the edge takes errors of.
    pub fn source(&self) -> (name: &str)
        ensures
            name@ == self@.source,
    {
        self.source.as_str()
    }

    /// Whether `error` is of the type that the edge takes errors of.
    pub fn admits<I>(&self, error: &Error<I>) -> (yes: bool)
        ensures
            yes == (error@.ctor.ty.name == self@.source),
    {
        let name = String::from_str(error.constructor().error_type().name());
        name == self.source
    }

    /// Converts `error` at `info`: the result is of the destination variant, was raised
    /// at `info`, and holds `error` as it came, place and all, as its one field.
    pub fn convert<I>(&self, error: Error<I>, info: I) -> (wrapped: Error<I>)
        requires
            error@.ctor.ty.name == self@.source,
        ensures
            wrapped@ == converted(self@, error@, info),
    {
        proof {
            use_type_invariant(self);
        }
        let mut fields: Vec<Field<I>> = Vec::new();
        fields.push(Field::Nested(Box::new(error)));
        proof {
            lemma_field_models(fields@);
            assert(field_models(fields@) =~= seq![FieldModel::Nested(Box::new(error@))]);
        }
        create_err(&self.target, info, fields)
    }

    /// Lets a failure of the source type travel on as one of the destination type,
    /// converted at `info`; a success passes as it is.
    pub fn lift<T, I>(&self, outcome: Result<T, Error<I>>, info: I) -> (r: Result<T, Error<I>>)
        requires
            outcome matches Err(error) ==> error@.ctor.ty.name == self@.source,
        ensures
            match outcome {
                Ok(value) => r == Ok::<T, Error<I>>(value),
                Err(error) => r matches Err(wrapped) && wrapped@ == converted(self@, error@, info),
            },
    {
        match outcome {
            Ok(value) => Ok(value),
            Err(error) => Err(self.convert(error, info)),
        }
    }
}

} // verus!

//! Error values: a variant of a declared type, the place where it was raised, and its fields.

use vstd::prelude::*;
use crate::declare::{Constructor, ConstructorModel};
use crate::decimal::decimal;
use crate::info::{ErrorInfo, ErrorInfoTrait};
use crate::template::expand;

verus! {

/// One field of an error.
#[derive(Debug, PartialEq, Eq)]
pub enum Field<I> {
    /// A value that the library does not look into, as the two texts it shows itself by:
    /// the one for messages and the one for diagnostics.
    Value { display: String, debug: String },
    /// Another error, kept whole behind one indirection.
    Nested(Box<Error<I>>),
}

/// An error of a declared type.
#[derive(Debug, PartialEq, Eq)]
pub struct Error<I> {
    ctor: Constructor,
    info: I,
    fields: Vec<Field<I>>,
}

/// What a field stands for.
pub enum FieldModel<I> {
    /// The two texts of a value.
    Value { display: Seq<char>, debug: Seq<char> },
    /// What the nested error stands for.
    Nested(Box<ErrorModel<I>>),
}

/// What an error stands for: the variant it is of, the place it was raised at, and its
/// fields in declared order.
pub struct ErrorModel<I> {
    pub ctor: ConstructorModel,
    pub info: I,
    pub fields: Seq<FieldModel<I>>,
}

impl<I> Field<I> {
    /// What the field stands for.
    pub open spec fn model(&self) -> FieldModel<I>
        decreases self,
    {
        match self {
            Field::Value { display, debug } => FieldModel::Value { display: display@, debug: debug@ },
            Field::Nested(inner) => FieldModel::Nested(Box::new(inner.model())),
        }
    }
}

/// What a list of fields stands for, field by field.
pub open spec fn field_models<I>(fields: Seq<Field<I>>) -> Seq<FieldModel<I>>
    decreases fields,
{
    if fields.len() == 0 {
        Seq::empty()
    } else {
        field_models(fields.drop_last()).push(fields.last().model())
    }
}

impl<I> Error<I> {
    #[verifier::type_invariant]
    spec fn sound(&self) -> bool {
        self.fields.len() == self.ctor@.arity()
    }

    /// What the error stands for.
    pub closed spec fn model(&self) -> ErrorModel<I>
        decreases self,
    {
        ErrorModel { ctor: self.ctor@, info: self.info, fields: field_models(self.fields@) }
    }
}

impl<I> View for Field<I> {
    type V = FieldModel<I>;

    open spec fn view(&self) -> FieldModel<I> {
        self.model()
    }
}

impl<I> View for Error<I> {
    type V = ErrorModel<I>;

    open spec fn view(&self) -> ErrorModel<I> {
        self.model()
    }
}

/// The models of a list of fields are as many as the fields, each the model of its field.
pub proof fn lemma_field_models<I>(fields: Seq<Field<I>>)
    ensures
        field_models(fields).len() == fields.len(),
        forall|i: int| 0 <= i < fields.len() ==> #[trigger] field_models(fields)[i] == fields[i].model(),
    decreases fields.len(),
{
    if fields.len() > 0 {
        lemma_field_models(fields.drop_last());
    }
}

/// The text that a field puts into a message.
pub open spec fn field_display<I: ErrorInfoTrait>(field: FieldModel<I>) -> Seq<char>
    decreases field,
{
    match field {
        FieldModel::Value { display, debug } => display,
        FieldModel::Nested(inner) => display_text(*inner),
    }
}

/// The texts that the fields put into a message, in their order.
pub open spec fn display_args<I: ErrorInfoTrait>(fields: Seq<FieldModel<I>>) -> Seq<Seq<char>>
    decreases fields,
{
    if fields.len() == 0 {
        Seq::empty()
    } else {
        display_args(fields.drop_last()).push(field_display(fields.last()))
    }
}

/// The message of an error: the place, a line break, and the variant's template with the
/// place as argument 0 and the fields after it.
pub open spec fn display_text<I: ErrorInfoTrait>(error: ErrorModel<I>) -> Seq<char>
    decreases error,
{
    let place = error.info.rendering();
    place + seq!['\n'] + expand(
        error.ctor.variant().template,
        seq![place] + display_args(error.fields),
    )
}

/// The text that a field puts into a diagnostic.
pub open spec fn field_debug<I: ErrorInfoTrait>(field: FieldModel<I>) -> Seq<char>
    decreases field,
{
    match field {
        FieldModel::Value { display, debug } => debug,
        FieldModel::Nested(inner) => debug_text(*inner),
    }
}

/// The fields in a diagnostic: for each in turn its name, a colon, its text and a space.
pub open spec fn debug_fields<I: ErrorInfoTrait>(
    names: Seq<Seq<char>>,
    fields: Seq<FieldModel<I>>,
) -> Seq<char>
    decreases fields,
{
    if fields.len() == 0 {
        Seq::empty()
    } else {
        debug_fields(names, fields.drop_last()) + names[fields.len() - 1] + seq![':']
            + field_debug(fields.last()) + seq![' ']
    }
}

/// The diagnostic of an error: the place, a line break, the type's name, `::`, the
/// variant's name, a space, and the fields.
pub open spec fn debug_text<I: ErrorInfoTrait>(error: ErrorModel<I>) -> Seq<char>
    decreases error,
{
    error.info.rendering() + seq!['\n'] + error.ctor.ty.name + seq![':', ':']
        + error.ctor.variant().name + seq![' '] + debug_fields(
        error.ctor.variant().fields,
        error.fields,
    )
}

/// The error that `ctor` builds from `fields` at `info`.
pub open spec fn raised<I>(ctor: ConstructorModel, info: I, fields: Seq<Field<I>>) -> ErrorModel<I> {
    ErrorModel { ctor, info, fields: field_models(fields) }
}

/// Message and diagnostic of an error both begin with the place it was raised at, on a
/// line of its own.
pub proof fn lemma_renderings_begin_with_place<I: ErrorInfoTrait>(error: ErrorModel<I>)
    ensures
        (error.info.rendering() + seq!['\n']).is_prefix_of(display_text(error)),
        (error.info.rendering() + seq!['\n']).is_prefix_of(debug_text(error)),
{
}

/// Whatever the variant and the fields, the message of an error that was raised with the
/// standard record begins with the path, the line and the column that the record was
/// stamped with.
pub proof fn lemma_message_shows_where_raised(
    ctor: ConstructorModel,
    info: ErrorInfo,
    fields: Seq<Field<ErrorInfo>>,
)
    ensures
        ({
            let place = info.location();
            (place.file + seq![' '] + decimal(place.line) + seq![':'] + decimal(place.col)
                + seq!['\n']).is_prefix_of(display_text(raised(ctor, info, fields)))
        }),
{
    lemma_renderings_begin_with_place(raised(ctor, info, fields));
}

/// Builds the error of the variant of `ctor` that was raised at `info` with the given
/// fields, which are as many as the variant declares.
pub fn create_err<I>(ctor: &Constructor, info: I, fields: Vec<Field<I>>) -> (error: Error<I>)
    requires
        fields.len() == ctor@.arity(),
    ensures
        error@ == raised(ctor@, info, fields@),
{
    Error { ctor: ctor.clone(), info, fields }
}

impl<I> Error<I> {
    /// The place where the error was raised, whichever its variant.
    pub fn get_error_info(&self) -> (info: &I)
        ensures
            *info == self@.info,
    {
        &self.info
    }

    /// The constructor that built the error: its type and its variant.
    pub fn constructor(&self) -> (ctor: &Constructor)
        ensures
            ctor@ == self@.ctor,
    {
        &self.ctor
    }

    /// The fields, in declared order.
    pub fn fields(&self) -> (fields: &Vec<Field<I>>)
        ensures
            field_models(fields@) == self@.fields,
            fields.len() == self@.ctor.arity(),
    {
        proof {
            use_type_invariant(self);
        }
        &self.fields
    }
}

impl<I: ErrorInfoTrait> Error<I> {
    /// The message of the error.
    pub fn to_string(&self) -> (text: String)
        ensures
            text@ == display_text(self@),
        decreases self,
    {
        proof {
            use_type_invariant(self);
            lemma_field_models(self.fields@);
        }
        let place = self.info.to_string();
        let mut text = place.clone();
        text.push('\n');
        let mut args: Vec<String> = Vec::new();
        args.push(place);
        let mut i: usize = 0;
        while i < self.fields.len()
            invariant
                i <= self.fields.len(),
                args.len() == i + 1,
                args.deep_view() == seq![self.info.rendering()] + display_args(
                    self@.fields.take(i as int),
                ),
                self@.fields.len() == self.fields.len(),
                forall|k: int|
                    0 <= k < self.fields.len() ==> #[trigger] self@.fields[k]
                        == self.fields[k].model(),
            decreases self.fields.len() - i,
        {
            let shown = match &self.fields[i] {
                Field::Value { display, debug } => display.clone(),
                Field::Nested(inner) => inner.to_string(),
            };
            proof {
                let upto = self@.fields.take(i as int + 1);
                assert(upto.drop_last() =~= self@.fields.take(i as int));
                assert(upto.last() == self.fields[i as int].model());
                assert(shown@ == field_display(upto.last()));
                assert(args.deep_view().push(shown@) =~= seq![self.info.rendering()]
                    + display_args(upto));
            }
            let ghost before = args.deep_view();
            args.push(shown);
            assert(args.deep_view() =~= before.push(shown@));
            i += 1;
        }
        assert(self@.fields.take(i as int) =~= self@.fields);
        self.ctor.write_message(&args, &mut text);
        text
    }

    /// The diagnostic of the error.
    pub fn to_debug_string(&self) -> (text: String)
        ensures
            text@ == debug_text(self@),
        decreases self,
    {
        proof {
            use_type_invariant(self);
            lemma_field_models(self.fields@);
        }
        let mut text = self.info.to_string();
        text.push('\n');
        text.append(self.ctor.error_type().name());
        text.push(':');
        text.push(':');
        text.append(self.ctor.name());
        text.push(' ');
        let names = self.ctor.field_names();
        let ghost head = text@;
        let ghost declared = self@.ctor.variant().fields;
        assert(head =~= self.info.rendering() + seq!['\n'] + self@.ctor.ty.name + seq![':', ':']
            + self@.ctor.variant().name + seq![' ']);
        let mut i: usize = 0;
        while i < self.fields.len()
            invariant
                i <= self.fields.len(),
                names.deep_view() == declared,
                declared.len() == self.fields.len(),
                text@ == head + debug_fields(declared, self@.fields.take(i as int)),
                self@.fields.len() == self.fields.len(),
                forall|k: int|
                    0 <= k < self.fields.len() ==> #[trigger] self@.fields[k]
                        == self.fields[k].model(),
            decreases self.fields.len() - i,
        {
            let ghost before = text@;
            let ghost upto = self@.fields.take(i as int + 1);
            assert(upto.drop_last() =~= self@.fields.take(i as int));
            assert(upto.last() == self.fields[i as int].model());
            assert(declared[i as int] == names[i as int]@);
            text.append(names[i].as_str());
            text.push(':');
            match &self.fields[i] {
                Field::Value { display, debug } => {
                    text.append(debug.as_str());
                },
                Field::Nested(inner) => {
                    let shown = inner.to_debug_string();
                    text.append(shown.as_str());
                },
            }
            text.push(' ');
            assert(text@ =~= before + declared[i as int] + seq![':'] + field_debug(upto.last())
                + seq![' ']);
            assert(text@ =~= head + debug_fields(declared, upto));
            i += 1;
        }
        assert(self@.fields.take(i as int) =~= self@.fields);
        text
    }
}

} // verus!

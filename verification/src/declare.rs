//! Declaring an error type: its name and the closed list of its variants.

use vstd::prelude::*;
use std::sync::Arc;
use crate::template::{expand, template_fault, Template, TemplateError};

verus! {

/// One variant as it is declared: its name, the names of its fields in order, and the
/// template of its message.
#[derive(Debug, PartialEq, Eq)]
pub struct Variant {
    pub name: String,
    pub fields: Vec<String>,
    pub template: String,
}

/// What a declared variant stands for.
pub struct VariantModel {
    pub name: Seq<char>,
    pub fields: Seq<Seq<char>>,
    pub template: Seq<char>,
}

impl VariantModel {
    /// The fault, if any, of the template for the fields that the variant has.
    pub open spec fn fault(self) -> Option<TemplateError> {
        template_fault(self.template, self.fields.len())
    }

    /// The template is free of faults for the fields that the variant has.
    pub open spec fn wf(self) -> bool {
        self.fault() is None
    }
}

impl View for Variant {
    type V = VariantModel;

    open spec fn view(&self) -> VariantModel {
        VariantModel {
            name: self.name@,
            fields: self.fields.deep_view(),
            template: self.template@,
        }
    }
}

/// What a declared error type stands for.
pub struct TypeModel {
    pub name: Seq<char>,
    pub variants: Seq<VariantModel>,
}

impl TypeModel {
    /// Every variant's template is free of faults.
    pub open spec fn wf(self) -> bool {
        forall|i: int| 0 <= i < self.variants.len() ==> (#[trigger] self.variants[i]).wf()
    }

    /// The variant at `index` is the first one that is called `name`.
    pub open spec fn first_named(self, name: Seq<char>, index: int) -> bool {
        &&& 0 <= index < self.variants.len()
        &&& self.variants[index].name == name
        &&& forall|i: int| 0 <= i < index ==> (#[trigger] self.variants[i]).name != name
    }

    /// No variant is called `name`.
    pub open spec fn lacks(self, name: Seq<char>) -> bool {
        forall|i: int| 0 <= i < self.variants.len() ==> (#[trigger] self.variants[i]).name != name
    }
}

/// The variants that a list of declarations stands for.
pub open spec fn variant_models(variants: Seq<Variant>) -> Seq<VariantModel> {
    Seq::new(variants.len(), |i: int| variants[i]@)
}

/// Why a list of variants was not taken as an error type: the first variant whose
/// template is faulty, and the fault.
#[derive(Clone, Copy, Debug, PartialEq, Eq)]
pub struct Rejected {
    pub variant: usize,
    pub fault: TemplateError,
}

#[derive(Debug, PartialEq, Eq)]
struct VariantDecl {
    name: String,
    fields: Vec<String>,
    template: Template,
}

impl VariantDecl {
    spec fn model(&self) -> VariantModel {
        VariantModel {
            name: self.name@,
            fields: self.fields.deep_view(),
            template: self.template@.text,
        }
    }

    spec fn wf(&self) -> bool {
        &&& self.template@.fields == self.fields.len()
        &&& self.model().wf()
    }
}

#[derive(Debug, PartialEq, Eq)]
struct Declaration {
    name: String,
    variants: Vec<VariantDecl>,
}

impl Declaration {
    spec fn model(&self) -> TypeModel {
        TypeModel {
            name: self.name@,
            variants: Seq::new(self.variants.len() as nat, |i: int| self.variants[i].model()),
        }
    }

    spec fn wf(&self) -> bool {
        forall|i: int| 0 <= i < self.variants.len() ==> (#[trigger] self.variants[i]).wf()
    }
}

/// A declared error type. It is cheap to copy and never changes.
#[derive(Debug, PartialEq, Eq)]
pub struct ErrorType {
    decl: Arc<Declaration>,
}

impl View for ErrorType {
    type V = TypeModel;

    closed spec fn view(&self) -> TypeModel {
        self.decl.model()
    }
}

impl Clone for ErrorType {
    fn clone(&self) -> (copy: Self)
        ensures
            copy@ == self@,
    {
        proof {
            use_type_invariant(self);
        }
        ErrorType { decl: self.decl.clone() }
    }
}

/// Declares the error type `name` with the given variants, in their order. The type is
/// refused when a template is faulty for the fields of its variant.
pub fn define_error(name: &str, variants: Vec<Variant>) -> (r: Result<ErrorType, Rejected>)
    ensures
        match r {
            Ok(ty) => ty@ == (TypeModel { name: name@, variants: variant_models(variants@) })
                && ty@.wf(),
            Err(rejected) => {
                &&& rejected.variant < variants.len()
                &&& variants[rejected.variant as int]@.fault() == Some(rejected.fault)
                &&& forall|i: int|
                    0 <= i < rejected.variant ==> (#[trigger] variant_models(variants@)[i]).wf()
            },
        },
{
    let ghost declared = variant_models(variants@);
    let mut decls: Vec<VariantDecl> = Vec::new();
    for variant in it: variants
        invariant
            it.seq() == variants@,
            declared == variant_models(variants@),
            decls.len() == it.index(),
            forall|i: int| 0 <= i < decls.len() ==> (#[trigger] decls[i]).wf(),
            forall|i: int| 0 <= i < decls.len() ==> (#[trigger] decls[i]).model() == declared[i],
    {
        let ghost at = it.index() as int;
        assert(variant == variants@[at]);
        assert(declared[at] == variant@);
        match Template::parse(variant.template.as_str(), variant.fields.len()) {
            Ok(template) => {
                decls.push(VariantDecl { name: variant.name, fields: variant.fields, template });
            },
            Err(fault) => {
                assert forall|i: int| 0 <= i < decls.len() implies (#[trigger] declared[i]).wf() by {
                    assert(decls[i].wf());
                }
                return Err(Rejected { variant: decls.len(), fault });
            },
        }
    }
    let decl = Declaration { name: String::from_str(name), variants: decls };
    assert(decl.model().variants =~= declared);
    Ok(ErrorType { decl: Arc::new(decl) })
}

impl ErrorType {
    #[verifier::type_invariant]
    spec fn sound(&self) -> bool {
        self.decl.wf()
    }

    /// The name the type was declared under.
    pub fn name(&self) -> (name: &str)
        ensures
            name@ == self@.name,
    {
        self.decl.name.as_str()
    }

    /// The number of variants.
    pub fn len(&self) -> (n: usize)
        ensures
            n == self@.variants.len(),
    {
        self.decl.variants.len()
    }
}

/// What a constructor stands for: a declared type and the position of one of its variants.
pub struct ConstructorModel {
    pub ty: TypeModel,
    pub index: nat,
}

impl ConstructorModel {
    /// The variant that the constructor builds.
    pub open spec fn variant(self) -> VariantModel {
        self.ty.variants[self.index as int]
    }

    /// The number of fields that the constructor takes after the place.
    pub open spec fn arity(self) -> nat {
        self.variant().fields.len()
    }
}

/// The way to build errors of one variant of a declared type.
#[derive(Debug, PartialEq, Eq)]
pub struct Constructor {
    ty: ErrorType,
    index: usize,
}

impl View for Constructor {
    type V = ConstructorModel;

    closed spec fn view(&self) -> ConstructorModel {
        ConstructorModel { ty: self.ty@, index: self.index as nat }
    }
}

impl Clone for Constructor {
    fn clone(&self) -> (copy: Self)
        ensures
            copy@ == self@,
    {
        proof {
            use_type_invariant(self);
        }
        Constructor { ty: self.ty.clone(), index: self.index }
    }
}

impl ErrorType {
    /// The constructor of the variant at `index`, counted from 0 in declared order.
    pub fn constructor(&self, index: usize) -> (r: Option<Constructor>)
        ensures
            match r {
                Some(ctor) => index < self@.variants.len() && ctor@ == (ConstructorModel {
                    ty: self@,
                    index: index as nat,
                }),
                None => index >= self@.variants.len(),
            },
    {
        if index < self.decl.variants.len() {
            Some(Constructor { ty: self.clone(), index })
        } else {
            None
        }
    }

    /// The constructor of the first variant that is called `name`.
    pub fn variant(&self, name: &str) -> (r: Option<Constructor>)
        ensures
            match r {
                Some(ctor) => ctor@.ty == self@ && self@.first_named(name@, ctor@.index as int),
                None => self@.lacks(name@),
            },
    {
        let wanted = String::from_str(name);
        let mut index: usize = 0;
        while index < self.decl.variants.len()
            invariant
                index <= self.decl.variants.len(),
                wanted@ == name@,
                forall|i: int| 0 <= i < index ==> (#[trigger] self@.variants[i]).name != name@,
            decreases self.decl.variants.len() - index,
        {
            if self.decl.variants[index].name == wanted {
                return self.constructor(index);
            }
            index += 1;
        }
        None
    }

    /// The constructor of the first variant that is called `name`, if that variant takes
    /// exactly `arity` fields.
    pub fn variant_taking(&self, name: &str, arity: usize) -> (r: Option<Constructor>)
        ensures
            match r {
                Some(ctor) => {
                    &&& ctor@.ty == self@
                    &&& self@.first_named(name@, ctor@.index as int)
                    &&& ctor@.arity() == arity
                },
                None => forall|i: int|
                    self@.first_named(name@, i) ==> (#[trigger] self@.variants[i]).fields.len()
                        != arity,
            },
    {
        match self.variant(name) {
            Some(ctor) => if ctor.arity() == arity {
                Some(ctor)
            } else {
                proof {
                    let found = ctor@.index as int;
                    assert forall|i: int| self@.first_named(name@, i) implies (
                    #[trigger] self@.variants[i]).fields.len() != arity by {
                        if i < found {
                            assert(self@.variants[i].name != name@);
                        } else if found < i {
                            assert(self@.variants[found].name != name@);
                        }
                    }
                }
                None
            },
            None => None,
        }
    }
}

impl Constructor {
    #[verifier::type_invariant]
    spec fn sound(&self) -> bool {
        self.index < self.ty@.variants.len()
    }

    /// The type that the constructor builds errors of.
    pub fn error_type(&self) -> (ty: &ErrorType)
        ensures
            ty@ == self@.ty,
    {
        &self.ty
    }

    /// The position of the variant in its type, counted from 0.
    pub fn index(&self) -> (index: usize)
        ensures
            index == self@.index,
            index < self@.ty.variants.len(),
    {
        proof {
            use_type_invariant(self);
        }
        self.index
    }

    /// The name of the variant.
    pub fn name(&self) -> (name: &str)
        ensures
            name@ == self@.variant().name,
    {
        proof {
            use_type_invariant(self);
        }
        self.ty.decl.variants[self.index].name.as_str()
    }

    /// The names of the fields that the constructor takes after the place, in order.
    pub fn field_names(&self) -> (names: &Vec<String>)
        ensures
            names.deep_view() == self@.variant().fields,
    {
        proof {
            use_type_invariant(self);
        }
        &self.ty.decl.variants[self.index].fields
    }

    /// The number of fields that the constructor takes after the place.
    pub fn arity(&self) -> (n: usize)
        ensures
            n == self@.arity(),
    {
        proof {
            use_type_invariant(self);
        }
        self.ty.decl.variants[self.index].fields.len()
    }

    /// Appends to `out` the variant's message for `args`: the place, then the fields.
    pub(crate) fn write_message(&self, args: &Vec<String>, out: &mut String)
        requires
            args.len() == self@.arity() + 1,
        ensures
            final(out)@ == old(out)@ + expand(self@.variant().template, args.deep_view()),
    {
        proof {
            use_type_invariant(self);
            use_type_invariant(&self.ty);
        }
        let variant = &self.ty.decl.variants[self.index];
        assert(variant.wf());
        variant.template.write(args, out);
    }
}

} // verus!

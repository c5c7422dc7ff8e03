//! Stage one: a field's declared type against its literal default value.

use vstd::prelude::*;

use crate::ecs::module::EcsModule;
use crate::toml_parser::parsed::{
    AethaumType, Component, ComponentField, PrimitiveType, SpecComponent, SpecField, SpecLit,
    SpecType, TomlLiteral, spec_lit_text, spec_type_text,
};

verus! {

/// Spec model of a type-check diagnostic.
#[verifier::ext_equal]
pub enum SpecTypeError {
    /// The expected type and the offending value.
    TypeMismatch(SpecType, SpecLit),
    Multiple(Seq<SpecTypeError>),
}

/// A type-check diagnostic: a single mismatch, or every mismatch of a
/// module collected together.
#[derive(Debug, PartialEq)]
pub enum TypeCheckError {
    /// The expected type and the offending value.
    TypeMismatch(AethaumType, TomlLiteral),
    Multiple { errors: Vec<TypeCheckError> },
}

/// The model of one type-check diagnostic.
pub open spec fn tc_err_view(e: TypeCheckError) -> SpecTypeError
    decreases e,
{
    match e {
        TypeCheckError::TypeMismatch(t, v) => SpecTypeError::TypeMismatch(t@, v@),
        TypeCheckError::Multiple { errors } => SpecTypeError::Multiple(tc_errs_view(errors@)),
    }
}

/// The models of a list of type-check diagnostics.
pub open spec fn tc_errs_view(s: Seq<TypeCheckError>) -> Seq<SpecTypeError>
    decreases s,
{
    if s.len() == 0 {
        Seq::empty()
    } else {
        tc_errs_view(s.drop_last()).push(tc_err_view(s.last()))
    }
}

impl View for TypeCheckError {
    type V = SpecTypeError;

    open spec fn view(&self) -> SpecTypeError {
        tc_err_view(*self)
    }
}

/// Appending a diagnostic appends its model.
pub proof fn lemma_tc_errs_view_push(s: Seq<TypeCheckError>, e: TypeCheckError)
    ensures
        tc_errs_view(s.push(e)) == tc_errs_view(s).push(tc_err_view(e)),
{
    assert(s.push(e).drop_last() =~= s);
    assert(s.push(e).last() == e);
}

/// A list of diagnostics and its model have the same length.
pub proof fn lemma_tc_errs_view_len(s: Seq<TypeCheckError>)
    ensures
        tc_errs_view(s).len() == s.len(),
    decreases s.len(),
{
    if s.len() > 0 {
        lemma_tc_errs_view_len(s.drop_last());
    }
}

/// One diagnostic's model, indexed.
pub proof fn lemma_tc_errs_view_index(s: Seq<TypeCheckError>, i: int)
    requires
        0 <= i < s.len(),
    ensures
        tc_errs_view(s).len() == s.len(),
        tc_errs_view(s)[i] == tc_err_view(s[i]),
    decreases s.len(),
{
    lemma_tc_errs_view_len(s);
    lemma_tc_errs_view_len(s.drop_last());
    if i < s.len() - 1 {
        lemma_tc_errs_view_index(s.drop_last(), i);
    }
}

impl TypeCheckError {
    pub fn raise_type_mismatch(expected: AethaumType, got: TomlLiteral) -> (r: Self)
        ensures
            r@ == SpecTypeError::TypeMismatch(expected@, got@),
    {
        TypeCheckError::TypeMismatch(expected, got)
    }

    pub fn raise_multiple(errors: Vec<TypeCheckError>) -> (r: Self)
        ensures
            r@ == SpecTypeError::Multiple(tc_errs_view(errors@)),
    {
        TypeCheckError::Multiple { errors }
    }
}

/// A literal's kind agrees with the declared primitive type.
pub open spec fn spec_lit_matches(p: PrimitiveType, l: SpecLit) -> bool {
    match (p, l) {
        (PrimitiveType::Bool, SpecLit::Boolean(_)) => true,
        (PrimitiveType::Int, SpecLit::Integer(_)) => true,
        (PrimitiveType::Float, SpecLit::Float(_)) => true,
        (PrimitiveType::Str, SpecLit::Text(_)) => true,
        _ => false,
    }
}

/// The result of checking one declared type against one optional default:
/// an absent default always passes; a present one must match the declared
/// primitive kind.
pub open spec fn spec_check_value(t: SpecType, d: Option<SpecLit>) -> Result<(), SpecTypeError>
    recommends
        t is Primitive,
{
    match d {
        None => Ok(()),
        Some(l) => if spec_lit_matches(t->Primitive_0, l) {
            Ok(())
        } else {
            Err(SpecTypeError::TypeMismatch(t, l))
        },
    }
}

/// The result of checking one field.
pub open spec fn spec_check_field(f: SpecField) -> Result<(), SpecTypeError> {
    spec_check_value(f.ty, f.default)
}

/// Every mismatch among a component's fields, in field order.
pub open spec fn spec_field_errors(fs: Seq<SpecField>) -> Seq<SpecTypeError>
    decreases fs.len(),
{
    if fs.len() == 0 {
        Seq::empty()
    } else {
        spec_field_errors(fs.drop_last()) + (match spec_check_field(fs.last()) {
            Ok(_) => Seq::empty(),
            Err(e) => seq![e],
        })
    }
}

/// Every mismatch among a module's components, in declaration order.
pub open spec fn spec_module_type_errors(cs: Seq<SpecComponent>) -> Seq<SpecTypeError>
    decreases cs.len(),
{
    if cs.len() == 0 {
        Seq::empty()
    } else {
        spec_module_type_errors(cs.drop_last()) + spec_field_errors(cs.last().fields)
    }
}

/// Collected diagnostics: none is success, one is returned alone, several
/// are wrapped together.
pub open spec fn spec_wrap_tc(errs: Seq<SpecTypeError>) -> Result<(), SpecTypeError> {
    if errs.len() == 0 {
        Ok(())
    } else if errs.len() == 1 {
        Err(errs[0])
    } else {
        Err(SpecTypeError::Multiple(errs))
    }
}

/// Every field of every component declares a primitive type. A custom
/// declared type cannot reach the type checker: its presence is a
/// configuration bug in the caller, not a user-facing diagnostic.
pub open spec fn spec_fields_primitive(cs: Seq<SpecComponent>) -> bool {
    forall|i: int, j: int|
        0 <= i < cs.len() && 0 <= j < cs[i].fields.len() ==> (#[trigger] cs[i].fields[j].ty)
            is Primitive
}

/// Stage one of the pipeline.
pub struct TypeChecker;

impl TypeChecker {
    /// Check one declared type against one optional default literal.
    pub fn check_type_value_match(type_spec: &AethaumType, default_value: &Option<TomlLiteral>) -> (r:
        Result<(), TypeCheckError>)
        requires
            type_spec@ is Primitive,
        ensures
            match r {
                Ok(()) => spec_check_value(type_spec@, spec_opt_lit(*default_value)) is Ok,
                Err(e) => spec_check_value(type_spec@, spec_opt_lit(*default_value)) == Err::<
                    (),
                    SpecTypeError,
                >(e@),
            },
    {
        match type_spec {
            AethaumType::Primitive(primitive_type) => {
                match default_value {
                    None => Ok(()),
                    Some(v) => {
                        let matches_kind = match primitive_type {
                            PrimitiveType::Bool => matches!(v, TomlLiteral::Boolean(_)),
                            PrimitiveType::Int => matches!(v, TomlLiteral::Integer(_)),
                            PrimitiveType::Float => matches!(v, TomlLiteral::Float(_)),
                            PrimitiveType::Str => matches!(v, TomlLiteral::Text(_)),
                        };
                        if matches_kind {
                            Ok(())
                        } else {
                            Err(TypeCheckError::raise_type_mismatch(type_spec.clone(), v.clone()))
                        }
                    },
                }
            },
            AethaumType::Custom(_) => unreached(),
        }
    }
}

/// The model of an optional literal.
pub open spec fn spec_opt_lit(d: Option<TomlLiteral>) -> Option<SpecLit> {
    match d {
        Some(v) => Some(v@),
        None => None,
    }
}

impl ComponentField {
    /// Check this field's default against its declared type.
    pub fn check_type(&self) -> (r: Result<(), TypeCheckError>)
        requires
            self@.ty is Primitive,
        ensures
            match r {
                Ok(()) => spec_check_field(self@) is Ok,
                Err(e) => spec_check_field(self@) == Err::<(), SpecTypeError>(e@),
            },
    {
        TypeChecker::check_type_value_match(&self.type_spec, &self.default_value)
    }
}

impl EcsModule {
    /// Check every field of every component, collecting every mismatch.
    pub fn check_type(&self) -> (r: Result<(), TypeCheckError>)
        requires
            spec_fields_primitive(self@.components),
        ensures
            match r {
                Ok(()) => spec_wrap_tc(spec_module_type_errors(self@.components)) is Ok,
                Err(e) => spec_wrap_tc(spec_module_type_errors(self@.components)) == Err::<
                    (),
                    SpecTypeError,
                >(e@),
            },
    {
        let ghost comps = self@.components;
        let mut errors: Vec<TypeCheckError> = Vec::new();
        match &self.components {
            None => {},
            Some(components) => {
                let n = components.len();
                let mut i: usize = 0;
                while i < n
                    invariant
                        n == components@.len(),
                        comps == components@.map_values(|c: Component| c@),
                        spec_fields_primitive(comps),
                        i <= n,
                        tc_errs_view(errors@) == spec_module_type_errors(
                            comps.subrange(0, i as int),
                        ),
                    decreases n - i,
                {
                    let component = &components[i];
                    proof {
                        assert(comps[i as int] == component@);
                    }
                    match &component.fields {
                        None => {
                            proof {
                                assert(comps.subrange(0, i as int + 1).drop_last() =~= comps
                                    .subrange(0, i as int));
                                assert(comps.subrange(0, i as int + 1).last() == comps[i as int]);
                            }
                        },
                        Some(fields) => {
                            let ghost fviews = component@.fields;
                            let m = fields.len();
                            let mut j: usize = 0;
                            while j < m
                                invariant
                                    m == fields@.len(),
                                    fviews == fields@.map_values(|f: ComponentField| f@),
                                    spec_fields_primitive(comps),
                                    comps == components@.map_values(|c: Component| c@),
                                    n == components@.len(),
                                    i < n,
                                    comps[i as int].fields == fviews,
                                    j <= m,
                                    tc_errs_view(errors@) == spec_module_type_errors(
                                        comps.subrange(0, i as int),
                                    ) + spec_field_errors(fviews.subrange(0, j as int)),
                                decreases m - j,
                            {
                                let field = &fields[j];
                                proof {
                                    assert(fviews[j as int] == field@);
                                    assert(comps[i as int].fields[j as int] == field@);
                                    assert(fviews.subrange(0, j as int + 1).drop_last() =~= fviews
                                        .subrange(0, j as int));
                                    assert(fviews.subrange(0, j as int + 1).last()
                                        == fviews[j as int]);
                                }
                                match field.check_type() {
                                    Ok(()) => {},
                                    Err(e) => {
                                        proof {
                                            lemma_tc_errs_view_push(errors@, e);
                                        }
                                        errors.push(e);
                                    },
                                }
                                j = j + 1;
                            }
                            proof {
                                assert(fviews.subrange(0, m as int) =~= fviews);
                                assert(comps.subrange(0, i as int + 1).drop_last() =~= comps
                                    .subrange(0, i as int));
                                assert(comps.subrange(0, i as int + 1).last() == comps[i as int]);
                            }
                        },
                    }
                    i = i + 1;
                }
                proof {
                    assert(comps.subrange(0, n as int) =~= comps);
                }
            },
        }
        proof {
            if self.components is None {
                assert(comps =~= Seq::<SpecComponent>::empty());
            }
        }
        if errors.len() == 0 {
            Ok(())
        } else if errors.len() == 1 {
            let ghost old_errs = errors@;
            let e = errors.pop().unwrap();
            proof {
                assert(e == old_errs.last());
                assert(old_errs.drop_last() =~= Seq::<TypeCheckError>::empty());
                assert(tc_errs_view(old_errs) =~= seq![tc_err_view(e)]);
            }
            Err(e)
        } else {
            proof {
                lemma_tc_errs_view_len(errors@);
            }
            Err(TypeCheckError::raise_multiple(errors))
        }
    }
}


/// The one-line text of a single mismatch, or the bulleted list of an
/// aggregate.
pub open spec fn spec_tc_message(e: SpecTypeError) -> Seq<char>
    decreases e,
{
    match e {
        SpecTypeError::TypeMismatch(t, v) => "Type mismatch: expected "@ + spec_type_text(t)
            + ", got "@ + spec_lit_text(v),
        SpecTypeError::Multiple(es) => "Multiple errors occurred during checking:"@
            + spec_tc_items(es),
    }
}

/// The bulleted items of an aggregate, one line each.
pub open spec fn spec_tc_items(es: Seq<SpecTypeError>) -> Seq<char>
    decreases es,
{
    if es.len() == 0 {
        Seq::empty()
    } else {
        spec_tc_items(es.drop_last()) + "\n  - "@ + spec_tc_message(es.last())
    }
}

impl TypeCheckError {
    /// A one-line message for a mismatch; a bulleted list for an
    /// aggregate.
    pub fn message(&self) -> (r: String)
        ensures
            r@ == spec_tc_message(self@),
        decreases self,
    {
        match self {
            TypeCheckError::TypeMismatch(t, v) => {
                let r = "Type mismatch: expected ".to_owned().concat(
                    t.as_type_string().as_str(),
                ).concat(", got ").concat(v.render().as_str());
                proof {
                    assert(r@ =~= "Type mismatch: expected "@ + spec_type_text(t@) + ", got "@
                        + spec_lit_text(v@));
                }
                r
            },
            TypeCheckError::Multiple { errors } => {
                let mut out = "Multiple errors occurred during checking:".to_owned();
                let ghost es = tc_errs_view(errors@);
                let n = errors.len();
                proof {
                    lemma_tc_errs_view_len(errors@);
                    assert(spec_tc_items(es.subrange(0, 0)) =~= Seq::<char>::empty());
                    assert(out@ =~= "Multiple errors occurred during checking:"@ + spec_tc_items(
                        es.subrange(0, 0),
                    ));
                }
                let mut k: usize = 0;
                while k < n
                    invariant
                        *self == (TypeCheckError::Multiple { errors: *errors }),
                        n == errors@.len(),
                        es == tc_errs_view(errors@),
                        es.len() == n,
                        k <= n,
                        out@ == "Multiple errors occurred during checking:"@ + spec_tc_items(
                            es.subrange(0, k as int),
                        ),
                    decreases n - k,
                {
                    proof {
                        assert(decreases_to!(*self => (*self)->errors@[k as int]));
                        assert(errors@[k as int] == (*self)->errors@[k as int]);
                        lemma_tc_errs_view_index(errors@, k as int);
                    }
                    let m = errors[k].message();
                    out = out.concat("\n  - ").concat(m.as_str());
                    proof {
                        assert(es.subrange(0, k as int + 1).drop_last() =~= es.subrange(
                            0,
                            k as int,
                        ));
                        assert(es.subrange(0, k as int + 1).last() == es[k as int]);
                        assert(out@ =~= "Multiple errors occurred during checking:"@
                            + spec_tc_items(es.subrange(0, k as int + 1)));
                    }
                    k = k + 1;
                }
                proof {
                    assert(es.subrange(0, n as int) =~= es);
                }
                out
            },
        }
    }
}

} // verus!

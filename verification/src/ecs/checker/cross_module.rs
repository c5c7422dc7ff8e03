//! Stage three: resolution of the references deferred by the in-module
//! stage, against the assembled project symbol table, and detection of
//! module-name collisions.

use vstd::prelude::*;

use crate::ecs::checker::context::{
    ModuleCheckContext, ModuleCheckTree, SpecContext, ctx_index, spec_has_name,
};
use crate::ecs::module::{EcsThingRef, SpecThing, spec_error_text, spec_thing_module_text,
    spec_thing_ref};
use crate::toml_parser::parsed::{
    ComponentRef, EntityProtoRef, EventRef, SpecRef, SystemRef, str_eq,
};

verus! {

// ---------------------------------------------------------------------------
// Diagnostics
// ---------------------------------------------------------------------------

/// Spec model of a cross-module diagnostic.
#[verifier::ext_equal]
pub enum SpecCrossError {
    /// Two modules registered under one name at tree assembly.
    MultiDefinition(Seq<char>),
    /// The qualified module exists but lacks the named definition.
    RefNotFound(SpecThing),
    /// The qualified module is absent from the project.
    ModuleNotFound(Seq<char>),
    /// An unqualified reference reached this stage: the caller broke the
    /// stage's contract.
    UnexpectedModuleNameMissing(SpecThing),
    Multiple(Seq<SpecCrossError>),
}

/// A cross-module diagnostic.
#[derive(Debug, PartialEq)]
pub enum CrossModuleCheckError {
    MultiDefinition { module_name: String },
    RefNotFound { thing_ref: EcsThingRef },
    ModuleNotFound { module_name: String },
    UnexpectedModuleNameMissing { thing_ref: EcsThingRef },
    Multiple { errors: Vec<CrossModuleCheckError> },
}

/// The model of one cross-module diagnostic.
pub open spec fn cross_err_view(e: CrossModuleCheckError) -> SpecCrossError
    decreases e,
{
    match e {
        CrossModuleCheckError::MultiDefinition { module_name } => SpecCrossError::MultiDefinition(
            module_name@,
        ),
        CrossModuleCheckError::RefNotFound { thing_ref } => SpecCrossError::RefNotFound(
            thing_ref@,
        ),
        CrossModuleCheckError::ModuleNotFound { module_name } => SpecCrossError::ModuleNotFound(
            module_name@,
        ),
        CrossModuleCheckError::UnexpectedModuleNameMissing { thing_ref } => {
            SpecCrossError::UnexpectedModuleNameMissing(thing_ref@)
        },
        CrossModuleCheckError::Multiple { errors } => SpecCrossError::Multiple(
            cross_errs_view(errors@),
        ),
    }
}

/// The models of a list of cross-module diagnostics.
pub open spec fn cross_errs_view(s: Seq<CrossModuleCheckError>) -> Seq<SpecCrossError>
    decreases s,
{
    if s.len() == 0 {
        Seq::empty()
    } else {
        cross_errs_view(s.drop_last()).push(cross_err_view(s.last()))
    }
}

impl View for CrossModuleCheckError {
    type V = SpecCrossError;

    open spec fn view(&self) -> SpecCrossError {
        cross_err_view(*self)
    }
}

/// Appending a diagnostic appends its model.
pub proof fn lemma_cross_errs_view_push(s: Seq<CrossModuleCheckError>, e: CrossModuleCheckError)
    ensures
        cross_errs_view(s.push(e)) == cross_errs_view(s).push(cross_err_view(e)),
{
    assert(s.push(e).drop_last() =~= s);
    assert(s.push(e).last() == e);
}

/// A list of diagnostics and its model have the same length.
pub proof fn lemma_cross_errs_view_len(s: Seq<CrossModuleCheckError>)
    ensures
        cross_errs_view(s).len() == s.len(),
    decreases s.len(),
{
    if s.len() > 0 {
        lemma_cross_errs_view_len(s.drop_last());
    }
}

/// The model of a cross-module check's result.
pub open spec fn cross_result_view(r: Result<(), CrossModuleCheckError>) -> Result<
    (),
    SpecCrossError,
> {
    match r {
        Ok(()) => Ok(()),
        Err(e) => Err(e@),
    }
}

impl CrossModuleCheckError {
    pub fn raise_multi_definition(module_name: String) -> (r: Self)
        ensures
            r@ == SpecCrossError::MultiDefinition(module_name@),
    {
        CrossModuleCheckError::MultiDefinition { module_name }
    }

    pub fn raise_ref_not_found(thing_ref: EcsThingRef) -> (r: Self)
        ensures
            r@ == SpecCrossError::RefNotFound(thing_ref@),
    {
        CrossModuleCheckError::RefNotFound { thing_ref }
    }

    pub fn raise_module_not_found(module_name: String) -> (r: Self)
        ensures
            r@ == SpecCrossError::ModuleNotFound(module_name@),
    {
        CrossModuleCheckError::ModuleNotFound { module_name }
    }

    pub fn raise_unexpected_module_name_missing(thing_ref: EcsThingRef) -> (r: Self)
        ensures
            r@ == SpecCrossError::UnexpectedModuleNameMissing(thing_ref@),
    {
        CrossModuleCheckError::UnexpectedModuleNameMissing { thing_ref }
    }

    pub fn raise_multiple(errors: Vec<CrossModuleCheckError>) -> (r: Self)
        ensures
            r@ == SpecCrossError::Multiple(cross_errs_view(errors@)),
    {
        CrossModuleCheckError::Multiple { errors }
    }
}

// ---------------------------------------------------------------------------
// The spec model of cross-module resolution
// ---------------------------------------------------------------------------

/// Resolution of one deferred reference against the assembled tree: a
/// missing qualifier is a caller contract violation; an unknown module is
/// `ModuleNotFound`; a module that lacks the name, for the reference's
/// kind, is `RefNotFound`. The name alone decides membership here: the
/// definition may have been registered bare or qualified to its own
/// module.
pub open spec fn spec_cross_check(t: SpecThing, tree: Seq<SpecContext>) -> Result<
    (),
    SpecCrossError,
> {
    let mt = spec_thing_module_text(t);
    if mt.len() == 0 {
        Err(SpecCrossError::UnexpectedModuleNameMissing(t))
    } else {
        let i = ctx_index(tree, mt);
        if i < 0 {
            Err(SpecCrossError::ModuleNotFound(mt))
        } else {
            let found = match t {
                SpecThing::Component(r) => spec_has_name(tree[i].components, r.name),
                SpecThing::Event(r) => spec_has_name(tree[i].events, r.name),
                SpecThing::EntityProto(r) => spec_has_name(tree[i].entity_protos, r.name),
                SpecThing::System(r) => spec_has_name(tree[i].systems, r.name),
            };
            if found {
                Ok(())
            } else {
                Err(SpecCrossError::RefNotFound(t))
            }
        }
    }
}

/// The failures among a list of deferred references, in order.
pub open spec fn spec_cross_errors(ts: Seq<SpecThing>, tree: Seq<SpecContext>) -> Seq<
    SpecCrossError,
>
    decreases ts.len(),
{
    if ts.len() == 0 {
        Seq::empty()
    } else {
        spec_cross_errors(ts.drop_last(), tree) + (match spec_cross_check(ts.last(), tree) {
            Ok(_) => Seq::empty(),
            Err(e) => seq![e],
        })
    }
}

/// Collected diagnostics: none is success, one is returned alone, several
/// are wrapped together.
pub open spec fn spec_cross_wrap(errs: Seq<SpecCrossError>) -> Result<(), SpecCrossError> {
    if errs.len() == 0 {
        Ok(())
    } else if errs.len() == 1 {
        Err(errs[0])
    } else {
        Err(SpecCrossError::Multiple(errs))
    }
}

// ---------------------------------------------------------------------------
// Exec helpers: membership by name
// ---------------------------------------------------------------------------

/// Membership of a name among registered component references.
fn contains_name_component(v: &Vec<ComponentRef>, name: &String) -> (res: bool)
    ensures
        res == spec_has_name(v@.map_values(|x: ComponentRef| x@), name@),
{
    let ghost s = v@.map_values(|x: ComponentRef| x@);
    let n = v.len();
    let mut k: usize = 0;
    while k < n
        invariant
            n == v@.len(),
            k <= n,
            s == v@.map_values(|x: ComponentRef| x@),
            forall|j: int| 0 <= j < k ==> s[j].name != name@,
        decreases n - k,
    {
        proof {
            assert(s[k as int] == v@[k as int]@);
        }
        if str_eq(v[k].name.as_str(), name.as_str()) {
            proof {
                assert(s[k as int].name == name@);
            }
            return true;
        }
        k = k + 1;
    }
    false
}

/// Membership of a name among registered event references.
fn contains_name_event(v: &Vec<EventRef>, name: &String) -> (res: bool)
    ensures
        res == spec_has_name(v@.map_values(|x: EventRef| x@), name@),
{
    let ghost s = v@.map_values(|x: EventRef| x@);
    let n = v.len();
    let mut k: usize = 0;
    while k < n
        invariant
            n == v@.len(),
            k <= n,
            s == v@.map_values(|x: EventRef| x@),
            forall|j: int| 0 <= j < k ==> s[j].name != name@,
        decreases n - k,
    {
        proof {
            assert(s[k as int] == v@[k as int]@);
        }
        if str_eq(v[k].name.as_str(), name.as_str()) {
            proof {
                assert(s[k as int].name == name@);
            }
            return true;
        }
        k = k + 1;
    }
    false
}

/// Membership of a name among registered entity prototype references.
fn contains_name_entity_proto(v: &Vec<EntityProtoRef>, name: &String) -> (res: bool)
    ensures
        res == spec_has_name(v@.map_values(|x: EntityProtoRef| x@), name@),
{
    let ghost s = v@.map_values(|x: EntityProtoRef| x@);
    let n = v.len();
    let mut k: usize = 0;
    while k < n
        invariant
            n == v@.len(),
            k <= n,
            s == v@.map_values(|x: EntityProtoRef| x@),
            forall|j: int| 0 <= j < k ==> s[j].name != name@,
        decreases n - k,
    {
        proof {
            assert(s[k as int] == v@[k as int]@);
        }
        if str_eq(v[k].name.as_str(), name.as_str()) {
            proof {
                assert(s[k as int].name == name@);
            }
            return true;
        }
        k = k + 1;
    }
    false
}

/// Membership of a name among registered system references.
fn contains_name_system(v: &Vec<SystemRef>, name: &String) -> (res: bool)
    ensures
        res == spec_has_name(v@.map_values(|x: SystemRef| x@), name@),
{
    let ghost s = v@.map_values(|x: SystemRef| x@);
    let n = v.len();
    let mut k: usize = 0;
    while k < n
        invariant
            n == v@.len(),
            k <= n,
            s == v@.map_values(|x: SystemRef| x@),
            forall|j: int| 0 <= j < k ==> s[j].name != name@,
        decreases n - k,
    {
        proof {
            assert(s[k as int] == v@[k as int]@);
        }
        if str_eq(v[k].name.as_str(), name.as_str()) {
            proof {
                assert(s[k as int].name == name@);
            }
            return true;
        }
        k = k + 1;
    }
    false
}

// ---------------------------------------------------------------------------
// The checker
// ---------------------------------------------------------------------------

/// Stage three of the pipeline.
pub struct CrossModuleChecker;

impl CrossModuleChecker {
    /// Register a module's completed symbol table into the project tree;
    /// a second table under the same module name is a collision.
    pub fn register_module(
        name: &str,
        context: ModuleCheckContext,
        tree: &mut ModuleCheckTree,
    ) -> (r: Result<(), CrossModuleCheckError>)
        requires
            context.name@ == name@,
        ensures
            match r {
                Ok(()) => {
                    &&& ctx_index(old(tree)@, name@) < 0
                    &&& final(tree)@ == old(tree)@.push(context@)
                },
                Err(e) => {
                    &&& ctx_index(old(tree)@, name@) >= 0
                    &&& e@ == SpecCrossError::MultiDefinition(name@)
                    &&& final(tree)@ == old(tree)@
                },
            },
    {
        let already = match tree.get_module_context(name) {
            Some(_) => true,
            None => false,
        };
        if already {
            return Err(CrossModuleCheckError::raise_multi_definition(name.to_owned()));
        }
        tree.insert_context(context);
        Ok(())
    }

    /// Resolve one deferred reference against the assembled tree; to be
    /// called after every module has been registered.
    pub fn check_cross_module_ref(thing_ref: &EcsThingRef, tree: &ModuleCheckTree) -> (r: Result<
        (),
        CrossModuleCheckError,
    >)
        ensures
            cross_result_view(r) == spec_cross_check(thing_ref@, tree@),
    {
        let module_name = thing_ref.module_name();
        if module_name.unicode_len() == 0 {
            return Err(
                CrossModuleCheckError::raise_unexpected_module_name_missing(thing_ref.clone()),
            );
        }
        let module_context = match tree.get_module_context(module_name) {
            Some(c) => c,
            None => {
                return Err(CrossModuleCheckError::raise_module_not_found(module_name.to_owned()));
            },
        };
        match thing_ref {
            EcsThingRef::Component(component_ref) => {
                if !contains_name_component(
                    &module_context.defined_components,
                    &component_ref.name,
                ) {
                    return Err(
                        CrossModuleCheckError::raise_ref_not_found(
                            EcsThingRef::Component(component_ref.clone()),
                        ),
                    );
                }
            },
            EcsThingRef::Event(event_ref) => {
                if !contains_name_event(&module_context.defined_events, &event_ref.name) {
                    return Err(
                        CrossModuleCheckError::raise_ref_not_found(
                            EcsThingRef::Event(event_ref.clone()),
                        ),
                    );
                }
            },
            EcsThingRef::EntityProto(entity_proto_ref) => {
                if !contains_name_entity_proto(
                    &module_context.defined_entity_protos,
                    &entity_proto_ref.name,
                ) {
                    return Err(
                        CrossModuleCheckError::raise_ref_not_found(
                            EcsThingRef::EntityProto(entity_proto_ref.clone()),
                        ),
                    );
                }
            },
            EcsThingRef::System(system_ref) => {
                if !contains_name_system(&module_context.defined_systems, &system_ref.name) {
                    return Err(
                        CrossModuleCheckError::raise_ref_not_found(
                            EcsThingRef::System(system_ref.clone()),
                        ),
                    );
                }
            },
        }
        Ok(())
    }
}

// ---------------------------------------------------------------------------
// Laws of cross-module resolution
// ---------------------------------------------------------------------------

/// A reference qualified to a module absent from the project yields
/// `ModuleNotFound` naming that module, never `RefNotFound`.
pub proof fn lemma_missing_module(t: SpecThing, tree: Seq<SpecContext>)
    requires
        spec_thing_module_text(t).len() > 0,
        ctx_index(tree, spec_thing_module_text(t)) < 0,
    ensures
        spec_cross_check(t, tree) == Err::<(), SpecCrossError>(
            SpecCrossError::ModuleNotFound(spec_thing_module_text(t)),
        ),
{
}

/// An unqualified reference reaching cross-module resolution always
/// observes `UnexpectedModuleNameMissing`: this stage assumes every
/// reference handed to it is qualified.
pub proof fn lemma_unqualified_at_cross_stage(t: SpecThing, tree: Seq<SpecContext>)
    requires
        spec_thing_ref(t).module is None,
    ensures
        spec_cross_check(t, tree) == Err::<(), SpecCrossError>(
            SpecCrossError::UnexpectedModuleNameMissing(t),
        ),
{
}


/// The one-line text of a single diagnostic, or the bulleted list of an
/// aggregate.
pub open spec fn spec_cross_message(e: SpecCrossError) -> Seq<char>
    decreases e,
{
    match e {
        SpecCrossError::MultiDefinition(m) => "Module '"@ + m + "' has multiple definition."@,
        SpecCrossError::RefNotFound(t) => "'"@ + spec_error_text(t)
            + "' is not defined in module '"@ + spec_thing_module_text(t) + "'"@,
        SpecCrossError::ModuleNotFound(m) => "Module '"@ + m + "' is not found."@,
        SpecCrossError::UnexpectedModuleNameMissing(t) => "Unexpected Module name missing in "@
            + spec_error_text(t),
        SpecCrossError::Multiple(es) => "Multiple errors occurred during checking:"@
            + spec_cross_items(es),
    }
}

/// The bulleted items of an aggregate, one line each.
pub open spec fn spec_cross_items(es: Seq<SpecCrossError>) -> Seq<char>
    decreases es,
{
    if es.len() == 0 {
        Seq::empty()
    } else {
        spec_cross_items(es.drop_last()) + "\n  - "@ + spec_cross_message(es.last())
    }
}

/// One diagnostic's model, indexed.
pub proof fn lemma_cross_errs_view_index(s: Seq<CrossModuleCheckError>, i: int)
    requires
        0 <= i < s.len(),
    ensures
        cross_errs_view(s).len() == s.len(),
        cross_errs_view(s)[i] == cross_err_view(s[i]),
    decreases s.len(),
{
    lemma_cross_errs_view_len(s);
    lemma_cross_errs_view_len(s.drop_last());
    if i < s.len() - 1 {
        lemma_cross_errs_view_index(s.drop_last(), i);
    }
}

impl CrossModuleCheckError {
    /// A one-line, reference-naming message for a leaf; a bulleted list
    /// for an aggregate.
    pub fn message(&self) -> (r: String)
        ensures
            r@ == spec_cross_message(self@),
        decreases self,
    {
        match self {
            CrossModuleCheckError::MultiDefinition { module_name } => {
                let r = "Module '".to_owned().concat(module_name.as_str()).concat(
                    "' has multiple definition.",
                );
                proof {
                    assert(r@ =~= "Module '"@ + module_name@ + "' has multiple definition."@);
                }
                r
            },
            CrossModuleCheckError::RefNotFound { thing_ref } => {
                let r = "'".to_owned().concat(thing_ref.as_error_str().as_str()).concat(
                    "' is not defined in module '",
                ).concat(thing_ref.module_name()).concat("'");
                proof {
                    assert(r@ =~= "'"@ + spec_error_text(thing_ref@)
                        + "' is not defined in module '"@ + spec_thing_module_text(thing_ref@)
                        + "'"@);
                }
                r
            },
            CrossModuleCheckError::ModuleNotFound { module_name } => {
                let r = "Module '".to_owned().concat(module_name.as_str()).concat(
                    "' is not found.",
                );
                proof {
                    assert(r@ =~= "Module '"@ + module_name@ + "' is not found."@);
                }
                r
            },
            CrossModuleCheckError::UnexpectedModuleNameMissing { thing_ref } => {
                let r = "Unexpected Module name missing in ".to_owned().concat(
                    thing_ref.as_error_str().as_str(),
                );
                proof {
                    assert(r@ =~= "Unexpected Module name missing in "@ + spec_error_text(
                        thing_ref@,
                    ));
                }
                r
            },
            CrossModuleCheckError::Multiple { errors } => {
                let mut out = "Multiple errors occurred during checking:".to_owned();
                let ghost es = cross_errs_view(errors@);
                let n = errors.len();
                proof {
                    lemma_cross_errs_view_len(errors@);
                    assert(spec_cross_items(es.subrange(0, 0)) =~= Seq::<char>::empty());
                    assert(out@ =~= "Multiple errors occurred during checking:"@
                        + spec_cross_items(es.subrange(0, 0)));
                }
                let mut k: usize = 0;
                while k < n
                    invariant
                        *self == (CrossModuleCheckError::Multiple { errors: *errors }),
                        n == errors@.len(),
                        es == cross_errs_view(errors@),
                        es.len() == n,
                        k <= n,
                        out@ == "Multiple errors occurred during checking:"@ + spec_cross_items(
                            es.subrange(0, k as int),
                        ),
                    decreases n - k,
                {
                    proof {
                        assert(decreases_to!(*self => (*self)->errors@[k as int]));
                        assert(errors@[k as int] == (*self)->errors@[k as int]);
                        lemma_cross_errs_view_index(errors@, k as int);
                    }
                    let m = errors[k].message();
                    out = out.concat("\n  - ").concat(m.as_str());
                    proof {
                        assert(es.subrange(0, k as int + 1).drop_last() =~= es.subrange(
                            0,
                            k as int,
                        ));
                        assert(es.subrange(0, k as int + 1).last() == es[k as int]);
                        assert(out@ =~= "Multiple errors occurred during checking:"@
                            + spec_cross_items(es.subrange(0, k as int + 1)));
                    }
                    k = k + 1;
                }
                proof {
                    assert(es.subrange(0, n as int) =~= es);
                }
                out
            },
        }
    }
}

} // verus!

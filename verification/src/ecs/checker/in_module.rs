//! Stage two: registration of a module's definitions and resolution of its
//! same-module references. A reference qualified to a foreign module is not
//! decidable here and is deferred to the cross-module stage.

use vstd::prelude::*;

use crate::ecs::checker::context::{ECSThing, ModuleCheckContext, SpecContext, spec_has_ref};
use crate::ecs::module::{EcsModule, EcsThingRef, SpecModule, SpecThing, spec_error_text,
    spec_thing_module_text, spec_thing_ref};
use crate::toml_parser::parsed::{
    Component, ComponentRef, EntityProto, EntityProtoRef, EventRef, SpecProto, SpecQuery, SpecRef,
    SystemEventHandler, SystemQuery, SystemRef, opt_text,
};

verus! {

// ---------------------------------------------------------------------------
// Diagnostics
// ---------------------------------------------------------------------------

/// Spec model of an in-module diagnostic.
#[verifier::ext_equal]
pub enum SpecInError {
    /// The same `(name, module)` key registered twice under one kind.
    AlreadyDefined(SpecThing),
    /// A definition attempted under a foreign module qualifier.
    DefineExternal(SpecThing),
    /// An unqualified or same-module reference with no local definition.
    NotDefined(SpecThing),
    /// Not a failure: resolve this reference at project scope.
    PropagateToCrossCheck(SpecThing),
    Multiple(Seq<SpecInError>),
}

/// An in-module diagnostic. `PropagateToCrossCheck` is a control signal,
/// not a user-facing error: the orchestrator strips it out and resolves the
/// carried reference against the whole project.
#[derive(Debug, PartialEq)]
pub enum InModuleCheckError {
    AlreadyDefined { thing_ref: EcsThingRef },
    DefineExternal { thing_ref: EcsThingRef },
    NotDefined { thing_ref: EcsThingRef },
    PropagateToCrossCheck { thing_ref: EcsThingRef },
    Multiple { errors: Vec<InModuleCheckError> },
}

/// The model of one in-module diagnostic.
pub open spec fn in_err_view(e: InModuleCheckError) -> SpecInError
    decreases e,
{
    match e {
        InModuleCheckError::AlreadyDefined { thing_ref } => SpecInError::AlreadyDefined(
            thing_ref@,
        ),
        InModuleCheckError::DefineExternal { thing_ref } => SpecInError::DefineExternal(
            thing_ref@,
        ),
        InModuleCheckError::NotDefined { thing_ref } => SpecInError::NotDefined(thing_ref@),
        InModuleCheckError::PropagateToCrossCheck { thing_ref } => {
            SpecInError::PropagateToCrossCheck(thing_ref@)
        },
        InModuleCheckError::Multiple { errors } => SpecInError::Multiple(in_errs_view(errors@)),
    }
}

/// The models of a list of in-module diagnostics.
pub open spec fn in_errs_view(s: Seq<InModuleCheckError>) -> Seq<SpecInError>
    decreases s,
{
    if s.len() == 0 {
        Seq::empty()
    } else {
        in_errs_view(s.drop_last()).push(in_err_view(s.last()))
    }
}

impl View for InModuleCheckError {
    type V = SpecInError;

    open spec fn view(&self) -> SpecInError {
        in_err_view(*self)
    }
}

/// Appending a diagnostic appends its model.
pub proof fn lemma_in_errs_view_push(s: Seq<InModuleCheckError>, e: InModuleCheckError)
    ensures
        in_errs_view(s.push(e)) == in_errs_view(s).push(in_err_view(e)),
{
    assert(s.push(e).drop_last() =~= s);
    assert(s.push(e).last() == e);
}

/// A list of diagnostics and its model have the same length.
pub proof fn lemma_in_errs_view_len(s: Seq<InModuleCheckError>)
    ensures
        in_errs_view(s).len() == s.len(),
    decreases s.len(),
{
    if s.len() > 0 {
        lemma_in_errs_view_len(s.drop_last());
    }
}

/// The model of an in-module check's result.
pub open spec fn in_result_view(r: Result<(), InModuleCheckError>) -> Result<(), SpecInError> {
    match r {
        Ok(()) => Ok(()),
        Err(e) => Err(e@),
    }
}

impl InModuleCheckError {
    pub fn raise_already_defined(thing_ref: EcsThingRef) -> (r: Self)
        ensures
            r@ == SpecInError::AlreadyDefined(thing_ref@),
    {
        InModuleCheckError::AlreadyDefined { thing_ref }
    }

    pub fn raise_define_external(thing_ref: EcsThingRef) -> (r: Self)
        ensures
            r@ == SpecInError::DefineExternal(thing_ref@),
    {
        InModuleCheckError::DefineExternal { thing_ref }
    }

    pub fn raise_not_defined(thing_ref: EcsThingRef) -> (r: Self)
        ensures
            r@ == SpecInError::NotDefined(thing_ref@),
    {
        InModuleCheckError::NotDefined { thing_ref }
    }

    pub fn raise_propagate_to_cross_check(thing_ref: EcsThingRef) -> (r: Self)
        ensures
            r@ == SpecInError::PropagateToCrossCheck(thing_ref@),
    {
        InModuleCheckError::PropagateToCrossCheck { thing_ref }
    }

    pub fn raise_multiple(errors: Vec<InModuleCheckError>) -> (r: Self)
        ensures
            r@ == SpecInError::Multiple(in_errs_view(errors@)),
    {
        InModuleCheckError::Multiple { errors }
    }

    /// Whether this diagnostic is the deferral signal.
    pub fn need_cross_module_check(&self) -> (r: bool)
        ensures
            r == (self@ is PropagateToCrossCheck),
    {
        matches!(self, InModuleCheckError::PropagateToCrossCheck { .. })
    }
}

// ---------------------------------------------------------------------------
// The spec model of registration and resolution
// ---------------------------------------------------------------------------

/// A reference carries a qualifier naming a module other than the current
/// one.
pub open spec fn spec_foreign(r: SpecRef, current: Seq<char>) -> bool {
    match r.module {
        Some(m) => m != current,
        None => false,
    }
}

/// The references registered for one kind.
pub open spec fn spec_kind_refs(c: SpecContext, k: ECSThing) -> Seq<SpecRef> {
    match k {
        ECSThing::Component => c.components,
        ECSThing::Event => c.events,
        ECSThing::EntityProto => c.entity_protos,
        ECSThing::System => c.systems,
    }
}

/// A reference tagged with a kind.
pub open spec fn spec_tag(k: ECSThing, r: SpecRef) -> SpecThing {
    match k {
        ECSThing::Component => SpecThing::Component(r),
        ECSThing::Event => SpecThing::Event(r),
        ECSThing::EntityProto => SpecThing::EntityProto(r),
        ECSThing::System => SpecThing::System(r),
    }
}

/// Registration of one definition: a foreign qualifier is rejected
/// outright; a key already present for the kind is a duplicate; otherwise
/// the key is added to the kind's set. On failure the table is unchanged.
pub open spec fn spec_reg_one(t: SpecThing, c: SpecContext) -> (Result<(), SpecInError>, SpecContext) {
    let r = spec_thing_ref(t);
    if spec_foreign(r, c.name) {
        (Err(SpecInError::DefineExternal(t)), c)
    } else {
        match t {
            SpecThing::Component(_) => if spec_has_ref(c.components, r) {
                (Err(SpecInError::AlreadyDefined(t)), c)
            } else {
                (Ok(()), SpecContext { components: c.components.push(r), ..c })
            },
            SpecThing::Event(_) => if spec_has_ref(c.events, r) {
                (Err(SpecInError::AlreadyDefined(t)), c)
            } else {
                (Ok(()), SpecContext { events: c.events.push(r), ..c })
            },
            SpecThing::EntityProto(_) => if spec_has_ref(c.entity_protos, r) {
                (Err(SpecInError::AlreadyDefined(t)), c)
            } else {
                (Ok(()), SpecContext { entity_protos: c.entity_protos.push(r), ..c })
            },
            SpecThing::System(_) => if spec_has_ref(c.systems, r) {
                (Err(SpecInError::AlreadyDefined(t)), c)
            } else {
                (Ok(()), SpecContext { systems: c.systems.push(r), ..c })
            },
        }
    }
}

/// Registration of a list of definitions, leftmost first, collecting every
/// failure and keeping every success.
pub open spec fn spec_reg_fold(ts: Seq<SpecThing>, c: SpecContext) -> (
    Seq<SpecInError>,
    SpecContext,
)
    decreases ts.len(),
{
    if ts.len() == 0 {
        (Seq::empty(), c)
    } else {
        let (es, c1) = spec_reg_fold(ts.drop_last(), c);
        let (r, c2) = spec_reg_one(ts.last(), c1);
        match r {
            Ok(_) => (es, c2),
            Err(e) => (es.push(e), c2),
        }
    }
}

/// Resolution of one reference in a consuming position: a foreign
/// qualifier defers to the cross-module stage; otherwise the reference's
/// key must be registered for its kind.
pub open spec fn spec_check_ref(k: ECSThing, r: SpecRef, c: SpecContext) -> Result<
    (),
    SpecInError,
> {
    if spec_foreign(r, c.name) {
        Err(SpecInError::PropagateToCrossCheck(spec_tag(k, r)))
    } else if !spec_has_ref(spec_kind_refs(c, k), r) {
        Err(SpecInError::NotDefined(spec_tag(k, r)))
    } else {
        Ok(())
    }
}

/// The failures among a list of component references, in order.
pub open spec fn spec_crefs_errors(rs: Seq<SpecRef>, c: SpecContext) -> Seq<SpecInError>
    decreases rs.len(),
{
    if rs.len() == 0 {
        Seq::empty()
    } else {
        spec_crefs_errors(rs.drop_last(), c) + (match spec_check_ref(
            ECSThing::Component,
            rs.last(),
            c,
        ) {
            Ok(_) => Seq::empty(),
            Err(e) => seq![e],
        })
    }
}

/// Collected diagnostics: none is success, one is returned alone, several
/// are wrapped together.
pub open spec fn spec_wrap_in(errs: Seq<SpecInError>) -> Result<(), SpecInError> {
    if errs.len() == 0 {
        Ok(())
    } else if errs.len() == 1 {
        Err(errs[0])
    } else {
        Err(SpecInError::Multiple(errs))
    }
}

/// The result of resolving an entity prototype's component list.
pub open spec fn spec_proto_check(p: SpecProto, c: SpecContext) -> Result<(), SpecInError> {
    spec_wrap_in(spec_crefs_errors(p.components, c))
}

/// The result of resolving a query's include and exclude constraints.
pub open spec fn spec_query_check(q: SpecQuery, c: SpecContext) -> Result<(), SpecInError> {
    spec_wrap_in(spec_crefs_errors(q.constraint.included + q.constraint.excluded, c))
}

/// The result of resolving an event handler's watched event.
pub open spec fn spec_handler_check(watch: SpecRef, c: SpecContext) -> Result<(), SpecInError> {
    spec_check_ref(ECSThing::Event, watch, c)
}

// ---------------------------------------------------------------------------
// Exec helpers
// ---------------------------------------------------------------------------

/// Equality of two `(name, module)` keys.
fn ref_fields_eq(a_name: &String, a_mod: &Option<String>, b_name: &String, b_mod: &Option<String>) -> (res:
    bool)
    ensures
        res == ((SpecRef { name: a_name@, module: opt_text(*a_mod) }) == (SpecRef {
            name: b_name@,
            module: opt_text(*b_mod),
        })),
{
    let names_eq = *a_name == *b_name;
    if !names_eq {
        return false;
    }
    match (a_mod, b_mod) {
        (None, None) => true,
        (Some(x), Some(y)) => *x == *y,
        _ => false,
    }
}

/// Membership of a component reference's key in the registered list.
fn contains_component(v: &Vec<ComponentRef>, name: &String, module: &Option<String>) -> (res: bool)
    ensures
        res == spec_has_ref(
            v@.map_values(|x: ComponentRef| x@),
            SpecRef { name: name@, module: opt_text(*module) },
        ),
{
    let ghost s = v@.map_values(|x: ComponentRef| x@);
    let ghost key = SpecRef { name: name@, module: opt_text(*module) };
    let n = v.len();
    let mut k: usize = 0;
    while k < n
        invariant
            n == v@.len(),
            k <= n,
            s == v@.map_values(|x: ComponentRef| x@),
            key == (SpecRef { name: name@, module: opt_text(*module) }),
            forall|j: int| 0 <= j < k ==> s[j] != key,
        decreases n - k,
    {
        proof {
            assert(s[k as int] == v@[k as int]@);
        }
        if ref_fields_eq(&v[k].name, &v[k].module_name, name, module) {
            proof {
                assert(s[k as int] == key);
            }
            return true;
        }
        k = k + 1;
    }
    false
}

/// Membership of an event reference's key in the registered list.
fn contains_event(v: &Vec<EventRef>, name: &String, module: &Option<String>) -> (res: bool)
    ensures
        res == spec_has_ref(
            v@.map_values(|x: EventRef| x@),
            SpecRef { name: name@, module: opt_text(*module) },
        ),
{
    let ghost s = v@.map_values(|x: EventRef| x@);
    let ghost key = SpecRef { name: name@, module: opt_text(*module) };
    let n = v.len();
    let mut k: usize = 0;
    while k < n
        invariant
            n == v@.len(),
            k <= n,
            s == v@.map_values(|x: EventRef| x@),
            key == (SpecRef { name: name@, module: opt_text(*module) }),
            forall|j: int| 0 <= j < k ==> s[j] != key,
        decreases n - k,
    {
        proof {
            assert(s[k as int] == v@[k as int]@);
        }
        if ref_fields_eq(&v[k].name, &v[k].module_name, name, module) {
            proof {
                assert(s[k as int] == key);
            }
            return true;
        }
        k = k + 1;
    }
    false
}

/// Membership of an entity prototype reference's key in the registered
/// list.
fn contains_entity_proto(v: &Vec<EntityProtoRef>, name: &String, module: &Option<String>) -> (res:
    bool)
    ensures
        res == spec_has_ref(
            v@.map_values(|x: EntityProtoRef| x@),
            SpecRef { name: name@, module: opt_text(*module) },
        ),
{
    let ghost s = v@.map_values(|x: EntityProtoRef| x@);
    let ghost key = SpecRef { name: name@, module: opt_text(*module) };
    let n = v.len();
    let mut k: usize = 0;
    while k < n
        invariant
            n == v@.len(),
            k <= n,
            s == v@.map_values(|x: EntityProtoRef| x@),
            key == (SpecRef { name: name@, module: opt_text(*module) }),
            forall|j: int| 0 <= j < k ==> s[j] != key,
        decreases n - k,
    {
        proof {
            assert(s[k as int] == v@[k as int]@);
        }
        if ref_fields_eq(&v[k].name, &v[k].module_name, name, module) {
            proof {
                assert(s[k as int] == key);
            }
            return true;
        }
        k = k + 1;
    }
    false
}

/// Membership of a system reference's key in the registered list.
fn contains_system(v: &Vec<SystemRef>, name: &String, module: &Option<String>) -> (res: bool)
    ensures
        res == spec_has_ref(
            v@.map_values(|x: SystemRef| x@),
            SpecRef { name: name@, module: opt_text(*module) },
        ),
{
    let ghost s = v@.map_values(|x: SystemRef| x@);
    let ghost key = SpecRef { name: name@, module: opt_text(*module) };
    let n = v.len();
    let mut k: usize = 0;
    while k < n
        invariant
            n == v@.len(),
            k <= n,
            s == v@.map_values(|x: SystemRef| x@),
            key == (SpecRef { name: name@, module: opt_text(*module) }),
            forall|j: int| 0 <= j < k ==> s[j] != key,
        decreases n - k,
    {
        proof {
            assert(s[k as int] == v@[k as int]@);
        }
        if ref_fields_eq(&v[k].name, &v[k].module_name, name, module) {
            proof {
                assert(s[k as int] == key);
            }
            return true;
        }
        k = k + 1;
    }
    false
}

/// Whether the qualifier names a module other than the current one.
fn is_foreign(module: &Option<String>, current: &String) -> (res: bool)
    ensures
        res == spec_foreign(SpecRef { name: Seq::empty(), module: opt_text(*module) }, current@),
{
    match module {
        Some(m) => !(*m == *current),
        None => false,
    }
}

/// Collected diagnostics become one result: none is success, one is
/// returned alone, several are wrapped together.
fn wrap_in_errors(errors: Vec<InModuleCheckError>) -> (r: Result<(), InModuleCheckError>)
    ensures
        in_result_view(r) == spec_wrap_in(in_errs_view(errors@)),
{
    proof {
        lemma_in_errs_view_len(errors@);
    }
    if errors.len() == 0 {
        Ok(())
    } else if errors.len() == 1 {
        let ghost old_errs = errors@;
        let mut errors = errors;
        let e = errors.pop().unwrap();
        proof {
            assert(e == old_errs.last());
            assert(old_errs.drop_last() =~= Seq::<InModuleCheckError>::empty());
            assert(in_errs_view(old_errs) =~= seq![in_err_view(e)]);
        }
        Err(e)
    } else {
        Err(InModuleCheckError::raise_multiple(errors))
    }
}

// ---------------------------------------------------------------------------
// The checker
// ---------------------------------------------------------------------------

/// Stage two of the pipeline.
pub struct InModuleChecker;

impl InModuleChecker {
    /// Register one definition into the module's symbol table. A foreign
    /// qualifier or a duplicate key is an error and leaves the table
    /// unchanged.
    pub fn try_register(thing: EcsThingRef, module_context: &mut ModuleCheckContext) -> (r: Result<
        (),
        InModuleCheckError,
    >)
        ensures
            in_result_view(r) == spec_reg_one(thing@, old(module_context)@).0,
            final(module_context)@ == spec_reg_one(thing@, old(module_context)@).1,
    {
        match thing {
            EcsThingRef::Component(component_ref) => {
                if is_foreign(&component_ref.module_name, &module_context.name) {
                    return Err(
                        InModuleCheckError::raise_define_external(
                            EcsThingRef::Component(component_ref),
                        ),
                    );
                }
                if contains_component(
                    &module_context.defined_components,
                    &component_ref.name,
                    &component_ref.module_name,
                ) {
                    return Err(
                        InModuleCheckError::raise_already_defined(
                            EcsThingRef::Component(component_ref),
                        ),
                    );
                }
                let ghost pre = module_context@;
                module_context.defined_components.push(component_ref);
                proof {
                    assert(module_context@ =~= (SpecContext {
                        components: pre.components.push(spec_thing_ref(thing@)),
                        ..pre
                    }));
                }
                Ok(())
            },
            EcsThingRef::Event(event_ref) => {
                if is_foreign(&event_ref.module_name, &module_context.name) {
                    return Err(
                        InModuleCheckError::raise_define_external(EcsThingRef::Event(event_ref)),
                    );
                }
                if contains_event(
                    &module_context.defined_events,
                    &event_ref.name,
                    &event_ref.module_name,
                ) {
                    return Err(
                        InModuleCheckError::raise_already_defined(EcsThingRef::Event(event_ref)),
                    );
                }
                let ghost pre = module_context@;
                module_context.defined_events.push(event_ref);
                proof {
                    assert(module_context@ =~= (SpecContext {
                        events: pre.events.push(spec_thing_ref(thing@)),
                        ..pre
                    }));
                }
                Ok(())
            },
            EcsThingRef::EntityProto(entity_proto_ref) => {
                if is_foreign(&entity_proto_ref.module_name, &module_context.name) {
                    return Err(
                        InModuleCheckError::raise_define_external(
                            EcsThingRef::EntityProto(entity_proto_ref),
                        ),
                    );
                }
                if contains_entity_proto(
                    &module_context.defined_entity_protos,
                    &entity_proto_ref.name,
                    &entity_proto_ref.module_name,
                ) {
                    return Err(
                        InModuleCheckError::raise_already_defined(
                            EcsThingRef::EntityProto(entity_proto_ref),
                        ),
                    );
                }
                let ghost pre = module_context@;
                module_context.defined_entity_protos.push(entity_proto_ref);
                proof {
                    assert(module_context@ =~= (SpecContext {
                        entity_protos: pre.entity_protos.push(spec_thing_ref(thing@)),
                        ..pre
                    }));
                }
                Ok(())
            },
            EcsThingRef::System(system_ref) => {
                if is_foreign(&system_ref.module_name, &module_context.name) {
                    return Err(
                        InModuleCheckError::raise_define_external(EcsThingRef::System(system_ref)),
                    );
                }
                if contains_system(
                    &module_context.defined_systems,
                    &system_ref.name,
                    &system_ref.module_name,
                ) {
                    return Err(
                        InModuleCheckError::raise_already_defined(EcsThingRef::System(system_ref)),
                    );
                }
                let ghost pre = module_context@;
                module_context.defined_systems.push(system_ref);
                proof {
                    assert(module_context@ =~= (SpecContext {
                        systems: pre.systems.push(spec_thing_ref(thing@)),
                        ..pre
                    }));
                }
                Ok(())
            },
        }
    }

    /// Resolve a component reference against the module's own table; to be
    /// called after every definition has been registered.
    pub fn check_in_module_component_ref(
        component_ref: &ComponentRef,
        module_context: &ModuleCheckContext,
    ) -> (r: Result<(), InModuleCheckError>)
        ensures
            in_result_view(r) == spec_check_ref(
                ECSThing::Component,
                component_ref@,
                module_context@,
            ),
    {
        if is_foreign(&component_ref.module_name, &module_context.name) {
            return Err(
                InModuleCheckError::raise_propagate_to_cross_check(
                    EcsThingRef::Component(component_ref.clone()),
                ),
            );
        }
        if !contains_component(
            &module_context.defined_components,
            &component_ref.name,
            &component_ref.module_name,
        ) {
            return Err(
                InModuleCheckError::raise_not_defined(
                    EcsThingRef::Component(component_ref.clone()),
                ),
            );
        }
        Ok(())
    }

    /// Resolve an event reference against the module's own table.
    pub fn check_in_module_event_ref(
        event_ref: &EventRef,
        module_context: &ModuleCheckContext,
    ) -> (r: Result<(), InModuleCheckError>)
        ensures
            in_result_view(r) == spec_check_ref(ECSThing::Event, event_ref@, module_context@),
    {
        if is_foreign(&event_ref.module_name, &module_context.name) {
            return Err(
                InModuleCheckError::raise_propagate_to_cross_check(
                    EcsThingRef::Event(event_ref.clone()),
                ),
            );
        }
        if !contains_event(
            &module_context.defined_events,
            &event_ref.name,
            &event_ref.module_name,
        ) {
            return Err(
                InModuleCheckError::raise_not_defined(EcsThingRef::Event(event_ref.clone())),
            );
        }
        Ok(())
    }

    /// Resolve an entity prototype reference against the module's own
    /// table.
    pub fn check_in_module_entity_proto_ref(
        entity_proto_ref: &EntityProtoRef,
        module_context: &ModuleCheckContext,
    ) -> (r: Result<(), InModuleCheckError>)
        ensures
            in_result_view(r) == spec_check_ref(
                ECSThing::EntityProto,
                entity_proto_ref@,
                module_context@,
            ),
    {
        if is_foreign(&entity_proto_ref.module_name, &module_context.name) {
            return Err(
                InModuleCheckError::raise_propagate_to_cross_check(
                    EcsThingRef::EntityProto(entity_proto_ref.clone()),
                ),
            );
        }
        if !contains_entity_proto(
            &module_context.defined_entity_protos,
            &entity_proto_ref.name,
            &entity_proto_ref.module_name,
        ) {
            return Err(
                InModuleCheckError::raise_not_defined(
                    EcsThingRef::EntityProto(entity_proto_ref.clone()),
                ),
            );
        }
        Ok(())
    }

    /// Resolve a system reference against the module's own table.
    pub fn check_in_module_system_ref(
        system_ref: &SystemRef,
        module_context: &ModuleCheckContext,
    ) -> (r: Result<(), InModuleCheckError>)
        ensures
            in_result_view(r) == spec_check_ref(ECSThing::System, system_ref@, module_context@),
    {
        if is_foreign(&system_ref.module_name, &module_context.name) {
            return Err(
                InModuleCheckError::raise_propagate_to_cross_check(
                    EcsThingRef::System(system_ref.clone()),
                ),
            );
        }
        if !contains_system(
            &module_context.defined_systems,
            &system_ref.name,
            &system_ref.module_name,
        ) {
            return Err(
                InModuleCheckError::raise_not_defined(EcsThingRef::System(system_ref.clone())),
            );
        }
        Ok(())
    }
}


// ---------------------------------------------------------------------------
// Per-entity resolution
// ---------------------------------------------------------------------------

/// The error of a failed check, as a list of zero or one diagnostics.
pub open spec fn spec_err_opt(r: Result<(), SpecInError>) -> Seq<SpecInError> {
    match r {
        Ok(_) => Seq::empty(),
        Err(e) => seq![e],
    }
}

impl EntityProto {
    /// Resolve every component reference of this prototype, collecting
    /// every failure.
    pub fn check_in_module(&self, module_context: &ModuleCheckContext) -> (r: Result<
        (),
        InModuleCheckError,
    >)
        ensures
            in_result_view(r) == spec_proto_check(self@, module_context@),
    {
        let ghost rs = self@.components;
        let mut errors: Vec<InModuleCheckError> = Vec::new();
        let n = self.components.len();
        let mut i: usize = 0;
        while i < n
            invariant
                n == self.components@.len(),
                rs == self@.components,
                i <= n,
                in_errs_view(errors@) == spec_crefs_errors(
                    rs.subrange(0, i as int),
                    module_context@,
                ),
            decreases n - i,
        {
            proof {
                assert(rs[i as int] == self.components@[i as int]@);
                assert(rs.subrange(0, i as int + 1).drop_last() =~= rs.subrange(0, i as int));
                assert(rs.subrange(0, i as int + 1).last() == rs[i as int]);
            }
            match InModuleChecker::check_in_module_component_ref(
                &self.components[i],
                module_context,
            ) {
                Ok(()) => {},
                Err(e) => {
                    proof {
                        lemma_in_errs_view_push(errors@, e);
                    }
                    errors.push(e);
                },
            }
            i = i + 1;
        }
        proof {
            assert(rs.subrange(0, n as int) =~= rs);
        }
        wrap_in_errors(errors)
    }
}

impl SystemQuery {
    /// Resolve every reference of this query's include and exclude
    /// constraints, collecting every failure.
    pub fn check_in_module(&self, module_context: &ModuleCheckContext) -> (r: Result<
        (),
        InModuleCheckError,
    >)
        ensures
            in_result_view(r) == spec_query_check(self@, module_context@),
    {
        let ghost inc = self@.constraint.included;
        let ghost exc = self@.constraint.excluded;
        let ghost all = inc + exc;
        let mut errors: Vec<InModuleCheckError> = Vec::new();
        match self.component_constraint.get_included() {
            None => {
                proof {
                    assert(inc =~= Seq::<SpecRef>::empty());
                }
            },
            Some(v) => {
                let n = v.len();
                let mut i: usize = 0;
                while i < n
                    invariant
                        n == v@.len(),
                        inc == v@.map_values(|x: ComponentRef| x@),
                        i <= n,
                        in_errs_view(errors@) == spec_crefs_errors(
                            inc.subrange(0, i as int),
                            module_context@,
                        ),
                    decreases n - i,
                {
                    proof {
                        assert(inc[i as int] == v@[i as int]@);
                        assert(inc.subrange(0, i as int + 1).drop_last() =~= inc.subrange(
                            0,
                            i as int,
                        ));
                        assert(inc.subrange(0, i as int + 1).last() == inc[i as int]);
                    }
                    match InModuleChecker::check_in_module_component_ref(&v[i], module_context) {
                        Ok(()) => {},
                        Err(e) => {
                            proof {
                                lemma_in_errs_view_push(errors@, e);
                            }
                            errors.push(e);
                        },
                    }
                    i = i + 1;
                }
                proof {
                    assert(inc.subrange(0, n as int) =~= inc);
                }
            },
        }
        proof {
            assert(all.subrange(0, inc.len() as int) =~= inc);
        }
        match self.component_constraint.get_excluded() {
            None => {
                proof {
                    assert(all =~= inc);
                }
            },
            Some(v) => {
                let n = v.len();
                let mut i: usize = 0;
                while i < n
                    invariant
                        n == v@.len(),
                        inc == self@.constraint.included,
                        exc == v@.map_values(|x: ComponentRef| x@),
                        all == inc + exc,
                        i <= n,
                        in_errs_view(errors@) == spec_crefs_errors(
                            all.subrange(0, inc.len() as int + i as int),
                            module_context@,
                        ),
                    decreases n - i,
                {
                    proof {
                        assert(exc[i as int] == v@[i as int]@);
                        assert(all[inc.len() as int + i as int] == exc[i as int]);
                        assert(all.subrange(0, inc.len() as int + i as int + 1).drop_last()
                            =~= all.subrange(0, inc.len() as int + i as int));
                        assert(all.subrange(0, inc.len() as int + i as int + 1).last() == all[
                            inc.len() as int + i as int
                        ]);
                    }
                    match InModuleChecker::check_in_module_component_ref(&v[i], module_context) {
                        Ok(()) => {},
                        Err(e) => {
                            proof {
                                lemma_in_errs_view_push(errors@, e);
                            }
                            errors.push(e);
                        },
                    }
                    i = i + 1;
                }
                proof {
                    assert(all.subrange(0, inc.len() as int + n as int) =~= all);
                }
            },
        }
        wrap_in_errors(errors)
    }
}

impl SystemEventHandler {
    /// Resolve the single watched-event reference.
    pub fn check_in_module(&self, module_context: &ModuleCheckContext) -> (r: Result<
        (),
        InModuleCheckError,
    >)
        ensures
            in_result_view(r) == spec_handler_check(self.watch_for@, module_context@),
    {
        InModuleChecker::check_in_module_event_ref(&self.watch_for, module_context)
    }
}


// ---------------------------------------------------------------------------
// Whole-module checking
// ---------------------------------------------------------------------------

/// The definitions a module registers, in declaration order: components,
/// then events, then entity prototypes, then systems, each under its bare
/// name.
pub open spec fn spec_module_things(m: SpecModule) -> Seq<SpecThing> {
    m.components.map_values(
        |c: crate::toml_parser::parsed::SpecComponent|
            SpecThing::Component(SpecRef { name: c.name, module: None }),
    ) + m.events.map_values(|n: Seq<char>| SpecThing::Event(SpecRef { name: n, module: None }))
        + m.entity_protos.map_values(
        |p: SpecProto| SpecThing::EntityProto(SpecRef { name: p.name, module: None }),
    ) + m.systems.map_values(
        |y: crate::toml_parser::parsed::SpecSystem|
            SpecThing::System(SpecRef { name: y.name, module: None }),
    )
}

/// The failures among a module's entity prototypes, in order.
pub open spec fn spec_protos_errors(ps: Seq<SpecProto>, c: SpecContext) -> Seq<SpecInError>
    decreases ps.len(),
{
    if ps.len() == 0 {
        Seq::empty()
    } else {
        spec_protos_errors(ps.drop_last(), c) + spec_err_opt(spec_proto_check(ps.last(), c))
    }
}

/// The failures among a system's queries, in order.
pub open spec fn spec_queries_errors(qs: Seq<SpecQuery>, c: SpecContext) -> Seq<SpecInError>
    decreases qs.len(),
{
    if qs.len() == 0 {
        Seq::empty()
    } else {
        spec_queries_errors(qs.drop_last(), c) + spec_err_opt(spec_query_check(qs.last(), c))
    }
}

/// The failures among a system's event handlers, in order.
pub open spec fn spec_handlers_errors(hs: Seq<SpecRef>, c: SpecContext) -> Seq<SpecInError>
    decreases hs.len(),
{
    if hs.len() == 0 {
        Seq::empty()
    } else {
        spec_handlers_errors(hs.drop_last(), c) + spec_err_opt(spec_handler_check(hs.last(), c))
    }
}

/// The failures of one system: its queries, then its handlers.
pub open spec fn spec_system_errors(y: crate::toml_parser::parsed::SpecSystem, c: SpecContext) -> Seq<
    SpecInError,
> {
    spec_queries_errors(y.queries, c) + spec_handlers_errors(y.handlers, c)
}

/// The failures among a module's systems, in order.
pub open spec fn spec_systems_errors(
    ss: Seq<crate::toml_parser::parsed::SpecSystem>,
    c: SpecContext,
) -> Seq<SpecInError>
    decreases ss.len(),
{
    if ss.len() == 0 {
        Seq::empty()
    } else {
        spec_systems_errors(ss.drop_last(), c) + spec_system_errors(ss.last(), c)
    }
}

/// The whole in-module stage of one module: register every definition into
/// the fresh table, then resolve every same-module reference against the
/// completed table. Returns the collected result and the table.
pub open spec fn spec_module_in_check(m: SpecModule, c0: SpecContext) -> (
    Result<(), SpecInError>,
    SpecContext,
) {
    let (regs, c1) = spec_reg_fold(spec_module_things(m), c0);
    let errs = regs + spec_protos_errors(m.entity_protos, c1) + spec_systems_errors(m.systems, c1);
    (spec_wrap_in(errs), c1)
}

impl EcsModule {
    /// Run the in-module stage on this module: register all definitions,
    /// then resolve all same-module references, collecting every failure
    /// and every deferral signal.
    #[verifier::rlimit(100)]
    #[verifier::spinoff_prover]
    pub fn check_in_module(&self, module_context: &mut ModuleCheckContext) -> (r: Result<
        (),
        InModuleCheckError,
    >)
        ensures
            in_result_view(r) == spec_module_in_check(self@, old(module_context)@).0,
            final(module_context)@ == spec_module_in_check(self@, old(module_context)@).1,
    {
        let ghost m = self@;
        let ghost c0 = old(module_context)@;
        let ghost tlist = spec_module_things(m);

        // Gather the definitions to register, in declaration order.
        let mut things: Vec<EcsThingRef> = Vec::new();
        let ghost part_a = m.components.map_values(
            |c: crate::toml_parser::parsed::SpecComponent|
                SpecThing::Component(SpecRef { name: c.name, module: None }),
        );
        let ghost part_b = m.events.map_values(
            |n: Seq<char>| SpecThing::Event(SpecRef { name: n, module: None }),
        );
        let ghost part_c = m.entity_protos.map_values(
            |p: SpecProto| SpecThing::EntityProto(SpecRef { name: p.name, module: None }),
        );
        let ghost part_d = m.systems.map_values(
            |y: crate::toml_parser::parsed::SpecSystem|
                SpecThing::System(SpecRef { name: y.name, module: None }),
        );
        match &self.components {
            None => {
                proof {
                    assert(part_a =~= Seq::<SpecThing>::empty());
                }
            },
            Some(v) => {
                let n = v.len();
                let mut i: usize = 0;
                while i < n
                    invariant
                        n == v@.len(),
                        part_a == v@.map_values(|c: Component| c@).map_values(
                            |c: crate::toml_parser::parsed::SpecComponent|
                                SpecThing::Component(SpecRef { name: c.name, module: None }),
                        ),
                        i <= n,
                        things@.map_values(|t: EcsThingRef| t@) =~= part_a.subrange(0, i as int),
                    decreases n - i,
                {
                    let ghost before = things@;
                    things.push(
                        EcsThingRef::Component(
                            ComponentRef { name: v[i].name.clone(), module_name: None },
                        ),
                    );
                    proof {
                        assert(things@.map_values(|t: EcsThingRef| t@) =~= before.map_values(
                            |t: EcsThingRef| t@,
                        ).push(part_a[i as int]));
                    }
                    i = i + 1;
                }
            },
        }
        match &self.events {
            None => {
                proof {
                    assert(part_b =~= Seq::<SpecThing>::empty());
                }
            },
            Some(v) => {
                let n = v.len();
                let mut i: usize = 0;
                while i < n
                    invariant
                        n == v@.len(),
                        part_b == v@.map_values(
                            |e: crate::toml_parser::parsed::Event| e.name@,
                        ).map_values(|nm: Seq<char>| SpecThing::Event(SpecRef { name: nm, module: None })),
                        i <= n,
                        things@.map_values(|t: EcsThingRef| t@) =~= part_a + part_b.subrange(
                            0,
                            i as int,
                        ),
                    decreases n - i,
                {
                    let ghost before = things@;
                    things.push(
                        EcsThingRef::Event(EventRef { name: v[i].name.clone(), module_name: None }),
                    );
                    proof {
                        assert(things@.map_values(|t: EcsThingRef| t@) =~= before.map_values(
                            |t: EcsThingRef| t@,
                        ).push(part_b[i as int]));
                    }
                    i = i + 1;
                }
            },
        }
        match &self.entity_protos {
            None => {
                proof {
                    assert(part_c =~= Seq::<SpecThing>::empty());
                }
            },
            Some(v) => {
                let n = v.len();
                let mut i: usize = 0;
                while i < n
                    invariant
                        n == v@.len(),
                        part_c == v@.map_values(|p: EntityProto| p@).map_values(
                            |p: SpecProto| SpecThing::EntityProto(SpecRef { name: p.name, module: None }),
                        ),
                        i <= n,
                        things@.map_values(|t: EcsThingRef| t@) =~= part_a + part_b
                            + part_c.subrange(0, i as int),
                    decreases n - i,
                {
                    let ghost before = things@;
                    things.push(
                        EcsThingRef::EntityProto(
                            EntityProtoRef { name: v[i].name.clone(), module_name: None },
                        ),
                    );
                    proof {
                        assert(things@.map_values(|t: EcsThingRef| t@) =~= before.map_values(
                            |t: EcsThingRef| t@,
                        ).push(part_c[i as int]));
                    }
                    i = i + 1;
                }
            },
        }
        match &self.systems {
            None => {
                proof {
                    assert(part_d =~= Seq::<SpecThing>::empty());
                }
            },
            Some(v) => {
                let n = v.len();
                let mut i: usize = 0;
                while i < n
                    invariant
                        n == v@.len(),
                        part_d == v@.map_values(
                            |y: crate::toml_parser::parsed::System| y@,
                        ).map_values(
                            |y: crate::toml_parser::parsed::SpecSystem|
                                SpecThing::System(SpecRef { name: y.name, module: None }),
                        ),
                        i <= n,
                        things@.map_values(|t: EcsThingRef| t@) =~= part_a + part_b + part_c
                            + part_d.subrange(0, i as int),
                    decreases n - i,
                {
                    let ghost before = things@;
                    things.push(
                        EcsThingRef::System(
                            SystemRef { name: v[i].normal.name.clone(), module_name: None },
                        ),
                    );
                    proof {
                        assert(things@.map_values(|t: EcsThingRef| t@) =~= before.map_values(
                            |t: EcsThingRef| t@,
                        ).push(part_d[i as int]));
                    }
                    i = i + 1;
                }
            },
        }
        proof {
            assert(tlist == part_a + part_b + part_c + part_d);
            assert(things@.map_values(|t: EcsThingRef| t@) =~= tlist);
        }

        // Register them all, collecting every failure.
        let mut errors: Vec<InModuleCheckError> = Vec::new();
        let ghost total = tlist.len();
        let mut things = things;
        while things.len() > 0
            invariant
                tlist == spec_module_things(m),
                c0 == old(module_context)@,
                things@.len() <= total,
                total == tlist.len(),
                things@.map_values(|t: EcsThingRef| t@) =~= tlist.subrange(
                    total as int - things@.len() as int,
                    total as int,
                ),
                in_errs_view(errors@) == spec_reg_fold(
                    tlist.subrange(0, total as int - things@.len() as int),
                    c0,
                ).0,
                module_context@ == spec_reg_fold(
                    tlist.subrange(0, total as int - things@.len() as int),
                    c0,
                ).1,
            decreases things@.len(),
        {
            let ghost before_things = things@;
            let ghost processed = total as int - things@.len() as int;
            let t = things.remove(0);
            proof {
                assert(before_things.map_values(|x: EcsThingRef| x@)[0] == t@);
                assert(t@ == tlist[processed]);
                assert(things@.map_values(|x: EcsThingRef| x@) =~= before_things.map_values(
                    |x: EcsThingRef| x@,
                ).subrange(1, before_things.len() as int));
                assert(things@.map_values(|x: EcsThingRef| x@) =~= tlist.subrange(
                    processed + 1,
                    total as int,
                ));
                assert(tlist.subrange(0, processed + 1).drop_last() =~= tlist.subrange(
                    0,
                    processed,
                ));
                assert(tlist.subrange(0, processed + 1).last() == tlist[processed]);
            }
            let ghost errs_before = errors@;
            match InModuleChecker::try_register(t, module_context) {
                Ok(()) => {},
                Err(e) => {
                    proof {
                        lemma_in_errs_view_push(errors@, e);
                    }
                    errors.push(e);
                },
            }
        }
        proof {
            assert(tlist.subrange(0, total as int) =~= tlist);
        }
        let ghost regs = spec_reg_fold(tlist, c0).0;
        let ghost c1 = spec_reg_fold(tlist, c0).1;

        // Resolve the entity prototypes.
        let ghost plist = m.entity_protos;
        match &self.entity_protos {
            None => {
                proof {
                    assert(plist =~= Seq::<SpecProto>::empty());
                    assert(regs + spec_protos_errors(plist, c1) =~= regs);
                }
            },
            Some(v) => {
                let n = v.len();
                let mut i: usize = 0;
                while i < n
                    invariant
                        n == v@.len(),
                        plist == v@.map_values(|p: EntityProto| p@),
                        c1 == module_context@,
                        regs == in_errs_view(errors@).subrange(0, regs.len() as int),
                        i <= n,
                        in_errs_view(errors@) =~= regs + spec_protos_errors(
                            plist.subrange(0, i as int),
                            c1,
                        ),
                    decreases n - i,
                {
                    proof {
                        assert(plist[i as int] == v@[i as int]@);
                        assert(plist.subrange(0, i as int + 1).drop_last() =~= plist.subrange(
                            0,
                            i as int,
                        ));
                        assert(plist.subrange(0, i as int + 1).last() == plist[i as int]);
                    }
                    let ghost errs_before = errors@;
                    match v[i].check_in_module(module_context) {
                        Ok(()) => {
                            proof {
                                assert(spec_err_opt(spec_proto_check(plist[i as int], c1))
                                    =~= Seq::<SpecInError>::empty());
                                assert(in_errs_view(errors@) =~= regs + spec_protos_errors(
                                    plist.subrange(0, i as int + 1),
                                    c1,
                                ));
                            }
                        },
                        Err(e) => {
                            proof {
                                lemma_in_errs_view_push(errors@, e);
                                assert(spec_err_opt(spec_proto_check(plist[i as int], c1))
                                    =~= seq![e@]);
                            }
                            errors.push(e);
                            proof {
                                assert(in_errs_view(errors@) =~= regs + spec_protos_errors(
                                    plist.subrange(0, i as int + 1),
                                    c1,
                                ));
                            }
                        },
                    }
                    i = i + 1;
                }
                proof {
                    assert(plist.subrange(0, n as int) =~= plist);
                }
            },
        }
        let ghost perrs = spec_protos_errors(plist, c1);

        // Resolve the systems: each system's queries, then its handlers.
        let ghost slist = m.systems;
        match &self.systems {
            None => {
                proof {
                    assert(slist =~= Seq::<crate::toml_parser::parsed::SpecSystem>::empty());
                    assert((regs + perrs) + spec_systems_errors(slist, c1) =~= regs + perrs);
                }
            },
            Some(v) => {
                let n = v.len();
                let mut i: usize = 0;
                while i < n
                    invariant
                        n == v@.len(),
                        slist == v@.map_values(|y: crate::toml_parser::parsed::System| y@),
                        c1 == module_context@,
                        i <= n,
                        in_errs_view(errors@) =~= (regs + perrs) + spec_systems_errors(
                            slist.subrange(0, i as int),
                            c1,
                        ),
                    decreases n - i,
                {
                    proof {
                        assert(slist[i as int] == v@[i as int]@);
                    }
                    let ghost sys = slist[i as int];
                    let ghost base = (regs + perrs) + spec_systems_errors(
                        slist.subrange(0, i as int),
                        c1,
                    );
                    let system = &v[i];
                    let qn = system.queries.len();
                    let mut j: usize = 0;
                    while j < qn
                        invariant
                            qn == system.queries@.len(),
                            sys == system@,
                            sys.queries == system.queries@.map_values(|q: SystemQuery| q@),
                            c1 == module_context@,
                            j <= qn,
                            in_errs_view(errors@) =~= base + spec_queries_errors(
                                sys.queries.subrange(0, j as int),
                                c1,
                            ),
                        decreases qn - j,
                    {
                        proof {
                            assert(sys.queries[j as int] == system.queries@[j as int]@);
                            assert(sys.queries.subrange(0, j as int + 1).drop_last() =~= sys.queries
                                .subrange(0, j as int));
                            assert(sys.queries.subrange(0, j as int + 1).last() == sys.queries[
                                j as int
                            ]);
                        }
                        match system.queries[j].check_in_module(module_context) {
                            Ok(()) => {
                                proof {
                                    assert(in_errs_view(errors@) =~= base + spec_queries_errors(
                                        sys.queries.subrange(0, j as int + 1),
                                        c1,
                                    ));
                                }
                            },
                            Err(e) => {
                                proof {
                                    lemma_in_errs_view_push(errors@, e);
                                }
                                errors.push(e);
                                proof {
                                    assert(in_errs_view(errors@) =~= base + spec_queries_errors(
                                        sys.queries.subrange(0, j as int + 1),
                                        c1,
                                    ));
                                }
                            },
                        }
                        j = j + 1;
                    }
                    proof {
                        assert(sys.queries.subrange(0, qn as int) =~= sys.queries);
                    }
                    let hn = system.event_handlers.len();
                    let mut h: usize = 0;
                    while h < hn
                        invariant
                            hn == system.event_handlers@.len(),
                            sys == system@,
                            sys.handlers == system.event_handlers@.map_values(
                                |hd: SystemEventHandler| hd.watch_for@,
                            ),
                            c1 == module_context@,
                            h <= hn,
                            in_errs_view(errors@) =~= (base + spec_queries_errors(
                                sys.queries,
                                c1,
                            )) + spec_handlers_errors(sys.handlers.subrange(0, h as int), c1),
                        decreases hn - h,
                    {
                        proof {
                            assert(sys.handlers[h as int]
                                == system.event_handlers@[h as int].watch_for@);
                            assert(sys.handlers.subrange(0, h as int + 1).drop_last()
                                =~= sys.handlers.subrange(0, h as int));
                            assert(sys.handlers.subrange(0, h as int + 1).last() == sys.handlers[
                                h as int
                            ]);
                        }
                        match system.event_handlers[h].check_in_module(module_context) {
                            Ok(()) => {
                                proof {
                                    assert(in_errs_view(errors@) =~= (base + spec_queries_errors(
                                        sys.queries,
                                        c1,
                                    )) + spec_handlers_errors(
                                        sys.handlers.subrange(0, h as int + 1),
                                        c1,
                                    ));
                                }
                            },
                            Err(e) => {
                                proof {
                                    lemma_in_errs_view_push(errors@, e);
                                }
                                errors.push(e);
                                proof {
                                    assert(in_errs_view(errors@) =~= (base + spec_queries_errors(
                                        sys.queries,
                                        c1,
                                    )) + spec_handlers_errors(
                                        sys.handlers.subrange(0, h as int + 1),
                                        c1,
                                    ));
                                }
                            },
                        }
                        h = h + 1;
                    }
                    proof {
                        assert(sys.handlers.subrange(0, hn as int) =~= sys.handlers);
                        assert(slist.subrange(0, i as int + 1).drop_last() =~= slist.subrange(
                            0,
                            i as int,
                        ));
                        assert(slist.subrange(0, i as int + 1).last() == slist[i as int]);
                        assert(in_errs_view(errors@) =~= (regs + perrs) + spec_systems_errors(
                            slist.subrange(0, i as int + 1),
                            c1,
                        ));
                    }
                    i = i + 1;
                }
                proof {
                    assert(slist.subrange(0, n as int) =~= slist);
                }
            },
        }
        proof {
            assert(in_errs_view(errors@) =~= regs + spec_protos_errors(m.entity_protos, c1)
                + spec_systems_errors(m.systems, c1));
        }
        wrap_in_errors(errors)
    }
}

// ---------------------------------------------------------------------------
// Laws of registration and deferral
// ---------------------------------------------------------------------------

/// Registering the same definition twice under one kind in one module:
/// the first registration succeeds, the second yields exactly
/// `AlreadyDefined` and leaves the symbol table unchanged.
pub proof fn lemma_register_twice(t: SpecThing, c: SpecContext)
    requires
        spec_reg_one(t, c).0 is Ok,
    ensures
        spec_reg_one(t, spec_reg_one(t, c).1).0 == Err::<(), SpecInError>(
            SpecInError::AlreadyDefined(t),
        ),
        spec_reg_one(t, spec_reg_one(t, c).1).1 == spec_reg_one(t, c).1,
{
    let r = spec_thing_ref(t);
    let c1 = spec_reg_one(t, c).1;
    match t {
        SpecThing::Component(_) => {
            assert(c1.components.last() == r);
            assert(spec_has_ref(c1.components, r));
        },
        SpecThing::Event(_) => {
            assert(c1.events.last() == r);
            assert(spec_has_ref(c1.events, r));
        },
        SpecThing::EntityProto(_) => {
            assert(c1.entity_protos.last() == r);
            assert(spec_has_ref(c1.entity_protos, r));
        },
        SpecThing::System(_) => {
            assert(c1.systems.last() == r);
            assert(spec_has_ref(c1.systems, r));
        },
    }
}

/// A reference qualified to a module other than its containing module,
/// used in any consuming position, never yields `NotDefined` at the
/// in-module stage: it always yields the deferral signal, to be resolved
/// only at the cross-module stage.
pub proof fn lemma_foreign_ref_defers(k: ECSThing, r: SpecRef, c: SpecContext)
    requires
        r.module is Some,
        r.module->0 != c.name,
    ensures
        spec_check_ref(k, r, c) == Err::<(), SpecInError>(
            SpecInError::PropagateToCrossCheck(spec_tag(k, r)),
        ),
{
}

/// Defining a thing under an explicit foreign-module qualifier always
/// fails with `DefineExternal` and leaves the symbol table unchanged,
/// whether or not that name is registered anywhere.
pub proof fn lemma_define_external_rejected(t: SpecThing, c: SpecContext)
    requires
        spec_thing_ref(t).module is Some,
        spec_thing_ref(t).module->0 != c.name,
    ensures
        spec_reg_one(t, c).0 == Err::<(), SpecInError>(SpecInError::DefineExternal(t)),
        spec_reg_one(t, c).1 == c,
{
}


/// The one-line text of a single diagnostic, or the bulleted list of an
/// aggregate.
pub open spec fn spec_in_message(e: SpecInError) -> Seq<char>
    decreases e,
{
    match e {
        SpecInError::AlreadyDefined(t) => "'"@ + spec_error_text(t) + "' is already defined."@,
        SpecInError::DefineExternal(t) => "'"@ + spec_error_text(t)
            + "' is defined in external module '"@ + spec_thing_module_text(t) + "'"@,
        SpecInError::NotDefined(t) => "'"@ + spec_error_text(t)
            + "' is not defined in current module."@,
        SpecInError::PropagateToCrossCheck(t) => "'"@ + spec_error_text(t)
            + "' should be checked in Cross Module Check stage."@,
        SpecInError::Multiple(es) => "Multiple errors occurred during checking:"@ + spec_in_items(
            es,
        ),
    }
}

/// The bulleted items of an aggregate, one line each.
pub open spec fn spec_in_items(es: Seq<SpecInError>) -> Seq<char>
    decreases es,
{
    if es.len() == 0 {
        Seq::empty()
    } else {
        spec_in_items(es.drop_last()) + "\n  - "@ + spec_in_message(es.last())
    }
}

/// One diagnostic's model, indexed.
pub proof fn lemma_in_errs_view_index(s: Seq<InModuleCheckError>, i: int)
    requires
        0 <= i < s.len(),
    ensures
        in_errs_view(s).len() == s.len(),
        in_errs_view(s)[i] == in_err_view(s[i]),
    decreases s.len(),
{
    lemma_in_errs_view_len(s);
    lemma_in_errs_view_len(s.drop_last());
    if i < s.len() - 1 {
        lemma_in_errs_view_index(s.drop_last(), i);
    }
}

impl InModuleCheckError {
    /// A one-line, reference-naming message for a leaf; a bulleted list
    /// for an aggregate.
    pub fn message(&self) -> (r: String)
        ensures
            r@ == spec_in_message(self@),
        decreases self,
    {
        match self {
            InModuleCheckError::AlreadyDefined { thing_ref } => {
                let r = "'".to_owned().concat(thing_ref.as_error_str().as_str()).concat(
                    "' is already defined.",
                );
                proof {
                    assert(r@ =~= "'"@ + spec_error_text(thing_ref@) + "' is already defined."@);
                }
                r
            },
            InModuleCheckError::DefineExternal { thing_ref } => {
                let r = "'".to_owned().concat(thing_ref.as_error_str().as_str()).concat(
                    "' is defined in external module '",
                ).concat(thing_ref.module_name()).concat("'");
                proof {
                    assert(r@ =~= "'"@ + spec_error_text(thing_ref@)
                        + "' is defined in external module '"@ + spec_thing_module_text(thing_ref@)
                        + "'"@);
                }
                r
            },
            InModuleCheckError::NotDefined { thing_ref } => {
                let r = "'".to_owned().concat(thing_ref.as_error_str().as_str()).concat(
                    "' is not defined in current module.",
                );
                proof {
                    assert(r@ =~= "'"@ + spec_error_text(thing_ref@)
                        + "' is not defined in current module."@);
                }
                r
            },
            InModuleCheckError::PropagateToCrossCheck { thing_ref } => {
                let r = "'".to_owned().concat(thing_ref.as_error_str().as_str()).concat(
                    "' should be checked in Cross Module Check stage.",
                );
                proof {
                    assert(r@ =~= "'"@ + spec_error_text(thing_ref@)
                        + "' should be checked in Cross Module Check stage."@);
                }
                r
            },
            InModuleCheckError::Multiple { errors } => {
                let mut out = "Multiple errors occurred during checking:".to_owned();
                let ghost es = in_errs_view(errors@);
                let n = errors.len();
                proof {
                    lemma_in_errs_view_len(errors@);
                    assert(spec_in_items(es.subrange(0, 0)) =~= Seq::<char>::empty());
                    assert(out@ =~= "Multiple errors occurred during checking:"@ + spec_in_items(
                        es.subrange(0, 0),
                    ));
                }
                let mut k: usize = 0;
                while k < n
                    invariant
                        *self == (InModuleCheckError::Multiple { errors: *errors }),
                        n == errors@.len(),
                        es == in_errs_view(errors@),
                        es.len() == n,
                        k <= n,
                        out@ == "Multiple errors occurred during checking:"@ + spec_in_items(
                            es.subrange(0, k as int),
                        ),
                    decreases n - k,
                {
                    proof {
                        assert(decreases_to!(*self => (*self)->errors@[k as int]));
                        assert(errors@[k as int] == (*self)->errors@[k as int]);
                        lemma_in_errs_view_index(errors@, k as int);
                    }
                    let m = errors[k].message();
                    out = out.concat("\n  - ").concat(m.as_str());
                    proof {
                        assert(es.subrange(0, k as int + 1).drop_last() =~= es.subrange(
                            0,
                            k as int,
                        ));
                        assert(es.subrange(0, k as int + 1).last() == es[k as int]);
                        assert(out@ =~= "Multiple errors occurred during checking:"@
                            + spec_in_items(es.subrange(0, k as int + 1)));
                    }
                    k = k + 1;
                }
                proof {
                    assert(es.subrange(0, n as int) =~= es);
                }
                out
            },
        }
    }
}

} // verus!

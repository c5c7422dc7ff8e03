//! Registration and same-module resolution.

use aethaum_core::ecs::checker::context::ModuleCheckContext;
use aethaum_core::ecs::checker::{CheckerError, SingleEcsModuleChecker};
use aethaum_core::ecs::module::EcsModule;
use aethaum_core::ecs::checker::in_module::{InModuleCheckError, InModuleChecker};
use aethaum_core::ecs::module::EcsThingRef;
use aethaum_core::toml_parser::parsed::{
    Component, ComponentConstraint, ComponentRef, EntityProto, EventRef, SystemEventHandler,
    SystemQuery,
};

fn fresh_ctx(name: &str) -> ModuleCheckContext {
    ModuleCheckContext::new(name.to_string(), "/tmp/project".to_string())
}

fn local_component(name: &str) -> ComponentRef {
    ComponentRef::new(None, name.to_string())
}

/// Registering the same unqualified name twice under one kind yields
/// exactly one `AlreadyDefined` and leaves the symbol set unchanged.
#[test]
fn registering_twice_is_already_defined() {
    let mut ctx = fresh_ctx("combat");
    InModuleChecker::try_register(EcsThingRef::Component(local_component("Health")), &mut ctx)
        .unwrap();
    assert_eq!(ctx.defined_components.len(), 1);

    let err = InModuleChecker::try_register(
        EcsThingRef::Component(local_component("Health")),
        &mut ctx,
    )
    .unwrap_err();
    assert!(matches!(err, InModuleCheckError::AlreadyDefined { .. }));
    assert_eq!(ctx.defined_components.len(), 1);
}

/// The same name may be registered under two different kinds.
#[test]
fn kinds_have_separate_namespaces() {
    let mut ctx = fresh_ctx("combat");
    InModuleChecker::try_register(EcsThingRef::Component(local_component("Health")), &mut ctx)
        .unwrap();
    InModuleChecker::try_register(
        EcsThingRef::Event(EventRef::new(None, "Health".to_string())),
        &mut ctx,
    )
    .unwrap();
    assert_eq!(ctx.defined_components.len(), 1);
    assert_eq!(ctx.defined_events.len(), 1);
}

/// Defining under a foreign qualifier always fails with `DefineExternal`,
/// whether or not the name exists anywhere.
#[test]
fn defining_under_foreign_qualifier_is_rejected() {
    let mut ctx = fresh_ctx("combat");
    let foreign = ComponentRef::new(Some("explore".to_string()), "Health".to_string());
    let err = InModuleChecker::try_register(EcsThingRef::Component(foreign), &mut ctx)
        .unwrap_err();
    assert!(matches!(err, InModuleCheckError::DefineExternal { .. }));
    assert_eq!(ctx.defined_components.len(), 0);
}

/// Defining qualified to the module's own name is allowed.
#[test]
fn defining_under_own_qualifier_is_allowed() {
    let mut ctx = fresh_ctx("combat");
    let own = ComponentRef::new(Some("combat".to_string()), "Health".to_string());
    InModuleChecker::try_register(EcsThingRef::Component(own), &mut ctx).unwrap();
    assert_eq!(ctx.defined_components.len(), 1);
}

/// A reference qualified to another module never resolves locally: it
/// yields the deferral signal, not `NotDefined`.
#[test]
fn foreign_reference_defers_to_cross_stage() {
    let ctx = fresh_ctx("combat");
    let foreign = ComponentRef::new(Some("explore".to_string()), "Position".to_string());
    let err = InModuleChecker::check_in_module_component_ref(&foreign, &ctx).unwrap_err();
    assert!(matches!(err, InModuleCheckError::PropagateToCrossCheck { .. }));
    assert!(err.need_cross_module_check());
}

#[test]
fn missing_local_reference_is_not_defined() {
    let ctx = fresh_ctx("combat");
    let missing = local_component("Position");
    let err = InModuleChecker::check_in_module_component_ref(&missing, &ctx).unwrap_err();
    assert!(matches!(err, InModuleCheckError::NotDefined { .. }));
    assert!(!err.need_cross_module_check());
}

#[test]
fn present_local_reference_resolves() {
    let mut ctx = fresh_ctx("combat");
    InModuleChecker::try_register(EcsThingRef::Component(local_component("Health")), &mut ctx)
        .unwrap();
    InModuleChecker::check_in_module_component_ref(&local_component("Health"), &ctx).unwrap();
}

/// An entity prototype collects every failing component reference.
#[test]
fn prototype_aggregates_failures() {
    let ctx = fresh_ctx("combat");
    let proto = EntityProto {
        name: "Player".to_string(),
        description: None,
        components: vec![local_component("Missing1"), local_component("Missing2")],
    };
    let err = proto.check_in_module(&ctx).unwrap_err();
    match err {
        InModuleCheckError::Multiple { errors } => {
            assert_eq!(errors.len(), 2);
        },
        other => panic!("expected an aggregate, got {:?}", other),
    }
}

/// A query checks its include and its exclude constraints.
#[test]
fn query_checks_both_constraint_lists() {
    let mut ctx = fresh_ctx("combat");
    InModuleChecker::try_register(EcsThingRef::Component(local_component("Health")), &mut ctx)
        .unwrap();
    let query = SystemQuery {
        name: "living".to_string(),
        description: None,
        component_constraint: ComponentConstraint::try_from_texts(
            Some(vec!["Health".to_string()]),
            Some(vec!["Missing".to_string()]),
        )
        .unwrap(),
    };
    let err = query.check_in_module(&ctx).unwrap_err();
    assert!(matches!(err, InModuleCheckError::NotDefined { .. }));
}

/// An event handler checks its single watched event.
#[test]
fn handler_checks_watched_event() {
    let mut ctx = fresh_ctx("combat");
    InModuleChecker::try_register(
        EcsThingRef::Event(EventRef::new(None, "EntityDamaged".to_string())),
        &mut ctx,
    )
    .unwrap();
    let handler = SystemEventHandler {
        watch_for: EventRef::new(None, "EntityDamaged".to_string()),
        priority: 10,
        logic: None,
    };
    handler.check_in_module(&ctx).unwrap();
}

/// A module whose in-module stage finds both a duplicate definition and an
/// unresolved reference reports both, in order.
#[test]
fn module_stage_collects_registration_and_resolution_failures() {
    let module = EcsModule::new_empty("combat".to_string())
        .with_components(vec![
            Component { name: "Health".to_string(), description: None, fields: None },
            Component { name: "Health".to_string(), description: None, fields: None },
        ])
        .with_entity_protos(vec![EntityProto {
            name: "Player".to_string(),
            description: None,
            components: vec![local_component("Missing")],
        }]);
    let (ctx, mut module_errors) =
        SingleEcsModuleChecker::run_checks(&module, "/tmp/project".to_string());
    assert_eq!(ctx.defined_components.len(), 1);
    assert_eq!(ctx.defined_entity_protos.len(), 1);
    assert_eq!(module_errors.len(), 1);
    match module_errors.pop().unwrap() {
        CheckerError::InModule(InModuleCheckError::Multiple { errors }, carried) => {
            assert_eq!(errors.len(), 2);
            assert!(matches!(errors[0], InModuleCheckError::AlreadyDefined { .. }));
            assert!(matches!(errors[1], InModuleCheckError::NotDefined { .. }));
            assert_eq!(carried.defined_components.len(), 1);
        },
        other => panic!("expected the unfiltered in-module aggregate, got {:?}", other),
    }
}

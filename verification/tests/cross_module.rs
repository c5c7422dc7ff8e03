//! Cross-module resolution and module-name collisions.

use aethaum_core::ecs::checker::context::{ModuleCheckContext, ModuleCheckTree};
use aethaum_core::ecs::checker::cross_module::{CrossModuleCheckError, CrossModuleChecker};
use aethaum_core::ecs::checker::in_module::InModuleChecker;
use aethaum_core::ecs::module::EcsThingRef;
use aethaum_core::toml_parser::parsed::ComponentRef;

fn combat_ctx_with_health() -> ModuleCheckContext {
    let mut ctx = ModuleCheckContext::new("combat".to_string(), "/tmp/project".to_string());
    InModuleChecker::try_register(
        EcsThingRef::Component(ComponentRef::new(None, "Health".to_string())),
        &mut ctx,
    )
    .unwrap();
    ctx
}

/// A reference qualified to a module absent from the project yields
/// `ModuleNotFound` naming that module, never `RefNotFound`.
#[test]
fn missing_module_is_module_not_found() {
    let tree = ModuleCheckTree::new();
    let thing = EcsThingRef::Component(ComponentRef::new(
        Some("nope".to_string()),
        "Thing".to_string(),
    ));
    let err = CrossModuleChecker::check_cross_module_ref(&thing, &tree).unwrap_err();
    assert_eq!(err, CrossModuleCheckError::ModuleNotFound { module_name: "nope".to_string() });
}

/// An unqualified reference fed directly into the cross-module resolver
/// observes `UnexpectedModuleNameMissing`: this stage assumes every
/// reference handed to it is qualified.
#[test]
fn unqualified_reference_breaks_the_stage_contract() {
    let mut tree = ModuleCheckTree::new();
    CrossModuleChecker::register_module("combat", combat_ctx_with_health(), &mut tree).unwrap();
    let thing = EcsThingRef::Component(ComponentRef::new(None, "Health".to_string()));
    let err = CrossModuleChecker::check_cross_module_ref(&thing, &tree).unwrap_err();
    assert!(matches!(err, CrossModuleCheckError::UnexpectedModuleNameMissing { .. }));
}

#[test]
fn present_reference_resolves() {
    let mut tree = ModuleCheckTree::new();
    CrossModuleChecker::register_module("combat", combat_ctx_with_health(), &mut tree).unwrap();
    let thing = EcsThingRef::Component(ComponentRef::new(
        Some("combat".to_string()),
        "Health".to_string(),
    ));
    CrossModuleChecker::check_cross_module_ref(&thing, &tree).unwrap();
}

#[test]
fn missing_name_in_known_module_is_ref_not_found() {
    let mut tree = ModuleCheckTree::new();
    CrossModuleChecker::register_module("combat", combat_ctx_with_health(), &mut tree).unwrap();
    let thing = EcsThingRef::Component(ComponentRef::new(
        Some("combat".to_string()),
        "Mana".to_string(),
    ));
    let err = CrossModuleChecker::check_cross_module_ref(&thing, &tree).unwrap_err();
    assert!(matches!(err, CrossModuleCheckError::RefNotFound { .. }));
}

/// Registering two modules under one name is a collision.
#[test]
fn second_module_of_same_name_collides() {
    let mut tree = ModuleCheckTree::new();
    CrossModuleChecker::register_module("combat", combat_ctx_with_health(), &mut tree).unwrap();
    let err = CrossModuleChecker::register_module("combat", combat_ctx_with_health(), &mut tree)
        .unwrap_err();
    assert_eq!(err, CrossModuleCheckError::MultiDefinition { module_name: "combat".to_string() });
}

#[test]
fn error_messages_name_the_reference() {
    let tree = ModuleCheckTree::new();
    let thing = EcsThingRef::Component(ComponentRef::new(
        Some("nope".to_string()),
        "Thing".to_string(),
    ));
    let err = CrossModuleChecker::check_cross_module_ref(&thing, &tree).unwrap_err();
    assert_eq!(err.message(), "Module 'nope' is not found.");
    assert_eq!(thing.as_error_str(), "Component \"nope::Thing\"");
    assert_eq!(thing.module_name(), "nope");
    assert_eq!(thing.name(), "Thing");
}

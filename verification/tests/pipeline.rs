//! The whole pipeline: per-module checks, tree assembly, cross-module
//! resolution and diagnostic aggregation.

use aethaum_core::ecs::checker::cross_module::CrossModuleCheckError;
use aethaum_core::ecs::checker::in_module::InModuleCheckError;
use aethaum_core::ecs::checker::{AethaumChecker, CheckerError, SingleEcsModuleChecker};
use aethaum_core::ecs::module::{AethaumProject, EcsModule, EcsModuleTree};
use aethaum_core::toml_parser::parsed::{
    AethaumType, Component, ComponentField, ComponentRef, EntityProto, PrimitiveType, TomlLiteral,
    World, WorldBuild, WorldCargo, WorldModules, WorldNormal,
};

fn component(name: &str) -> Component {
    Component { name: name.to_string(), description: None, fields: None }
}

fn world() -> World {
    World {
        normal: WorldNormal {
            name: "TestWorld".to_string(),
            version: "0.1.0".to_string(),
            author: "nobody".to_string(),
        },
        modules: WorldModules { modules: vec![] },
        build: Some(WorldBuild { output_dir: "generated".to_string() }),
        cargo: Some(WorldCargo {}),
    }
}

fn project(modules: Vec<EcsModule>) -> AethaumProject {
    AethaumProject::new(
        "/tmp/project".to_string(),
        world(),
        EcsModuleTree::new_empty().with_modules(modules),
    )
}

/// Two modules: `combat` defines component `Health`; `explore` defines
/// component `Position` and an entity prototype `Player` listing
/// `combat::Health` and the local `Position`. All three stages pass with
/// zero errors.
#[test]
fn cross_module_round_trip() {
    let combat = EcsModule::new_empty("combat".to_string()).with_components(vec![component(
        "Health",
    )]);
    let explore = EcsModule::new_empty("explore".to_string())
        .with_components(vec![component("Position")])
        .with_entity_protos(vec![EntityProto {
            name: "Player".to_string(),
            description: None,
            components: vec![
                ComponentRef::new(Some("combat".to_string()), "Health".to_string()),
                ComponentRef::new(None, "Position".to_string()),
            ],
        }]);
    AethaumChecker::run_check(project(vec![combat, explore])).unwrap();
}

#[test]
fn empty_project_passes() {
    AethaumChecker::run_check(project(vec![])).unwrap();
}

/// A reference into a module that does not exist surfaces as a
/// cross-module `ModuleNotFound`.
#[test]
fn reference_to_missing_module_fails_cross_stage() {
    let explore = EcsModule::new_empty("explore".to_string()).with_entity_protos(vec![
        EntityProto {
            name: "Player".to_string(),
            description: None,
            components: vec![ComponentRef::new(Some("nope".to_string()), "Thing".to_string())],
        },
    ]);
    let err = AethaumChecker::run_check(project(vec![explore])).unwrap_err();
    match err {
        CheckerError::CrossModule(CrossModuleCheckError::ModuleNotFound { module_name }) => {
            assert_eq!(module_name, "nope");
        },
        other => panic!("expected ModuleNotFound, got {:?}", other),
    }
}

/// A duplicated definition surfaces as a filtered in-module error.
#[test]
fn duplicate_definition_fails_in_module_stage() {
    let combat = EcsModule::new_empty("combat".to_string()).with_components(vec![
        component("Health"),
        component("Health"),
    ]);
    let err = AethaumChecker::run_check(project(vec![combat])).unwrap_err();
    match err {
        CheckerError::FilteredInModule(InModuleCheckError::AlreadyDefined { thing_ref }) => {
            assert_eq!(thing_ref.name(), "Health");
        },
        other => panic!("expected AlreadyDefined, got {:?}", other),
    }
}

/// A type mismatch is collected non-fatally: the module's in-module stage
/// still runs and its symbol table still enters the project tree, so a
/// cross-module reference into that module resolves. The type error is
/// the only diagnostic.
#[test]
fn type_error_is_reported_per_module() {
    let combat = EcsModule::new_empty("combat".to_string()).with_components(vec![Component {
        name: "Health".to_string(),
        description: None,
        fields: Some(vec![ComponentField {
            name: "value".to_string(),
            type_spec: AethaumType::Primitive(PrimitiveType::Float),
            default_value: Some(TomlLiteral::Text("a".to_string())),
            description: None,
        }]),
    }]);
    let explore = EcsModule::new_empty("explore".to_string()).with_entity_protos(vec![
        EntityProto {
            name: "Player".to_string(),
            description: None,
            components: vec![ComponentRef::new(Some("combat".to_string()), "Health".to_string())],
        },
    ]);
    let err = AethaumChecker::run_check(project(vec![combat, explore])).unwrap_err();
    assert!(matches!(err, CheckerError::Type(_)));
}

/// Diagnostics from different stages are all returned together: a type
/// mismatch in one module and a dangling foreign reference in another
/// merge into one aggregate holding the type error and the cross-module
/// error.
#[test]
fn stages_do_not_short_circuit() {
    let combat = EcsModule::new_empty("combat".to_string()).with_components(vec![Component {
        name: "Health".to_string(),
        description: None,
        fields: Some(vec![ComponentField {
            name: "value".to_string(),
            type_spec: AethaumType::Primitive(PrimitiveType::Float),
            default_value: Some(TomlLiteral::Text("a".to_string())),
            description: None,
        }]),
    }]);
    let explore = EcsModule::new_empty("explore".to_string()).with_entity_protos(vec![
        EntityProto {
            name: "Player".to_string(),
            description: None,
            components: vec![ComponentRef::new(Some("nope".to_string()), "Thing".to_string())],
        },
    ]);
    let err = AethaumChecker::run_check(project(vec![combat, explore])).unwrap_err();
    match err {
        CheckerError::Multiple { errors } => {
            assert_eq!(errors.len(), 2);
            assert!(matches!(errors[0], CheckerError::Type(_)));
            match &errors[1] {
                CheckerError::CrossModule(CrossModuleCheckError::ModuleNotFound {
                    module_name,
                }) => {
                    assert_eq!(module_name, "nope");
                },
                other => panic!("expected ModuleNotFound, got {:?}", other),
            }
        },
        other => panic!("expected the merged aggregate, got {:?}", other),
    }
}

/// Errors from several modules are merged into one aggregate.
#[test]
fn errors_from_many_modules_are_merged() {
    let a = EcsModule::new_empty("a".to_string()).with_components(vec![
        component("X"),
        component("X"),
    ]);
    let b = EcsModule::new_empty("b".to_string()).with_components(vec![
        component("Y"),
        component("Y"),
    ]);
    let err = AethaumChecker::run_check(project(vec![a, b])).unwrap_err();
    match err {
        CheckerError::Multiple { errors } => assert_eq!(errors.len(), 2),
        other => panic!("expected an aggregate, got {:?}", other),
    }
}

/// A deferral signal alongside a genuine error: the signal is resolved at
/// project scope, the genuine error is reported, and nothing is dropped.
#[test]
fn deferred_reference_not_reported_as_error() {
    let combat = EcsModule::new_empty("combat".to_string()).with_components(vec![component(
        "Health",
    )]);
    let explore = EcsModule::new_empty("explore".to_string()).with_entity_protos(vec![
        EntityProto {
            name: "Player".to_string(),
            description: None,
            components: vec![
                ComponentRef::new(Some("combat".to_string()), "Health".to_string()),
                ComponentRef::new(None, "Missing".to_string()),
            ],
        },
    ]);
    let err = AethaumChecker::run_check(project(vec![combat, explore])).unwrap_err();
    match err {
        CheckerError::FilteredInModule(InModuleCheckError::NotDefined { thing_ref }) => {
            assert_eq!(thing_ref.name(), "Missing");
        },
        other => panic!("expected the genuine NotDefined alone, got {:?}", other),
    }
}

/// The per-module checker yields the module's completed symbol table and
/// no diagnostics for a clean module.
#[test]
fn single_checker_builds_the_table() {
    let combat = EcsModule::new_empty("combat".to_string()).with_components(vec![component(
        "Health",
    )]);
    let (ctx, errors) = SingleEcsModuleChecker::run_checks(&combat, "/tmp/project".to_string());
    assert!(errors.is_empty());
    assert_eq!(ctx.name, "combat");
    assert_eq!(ctx.defined_components.len(), 1);
    assert_eq!(ctx.defined_components[0].name, "Health");
}

/// Module trees replace on re-insert and look up by name.
#[test]
fn module_tree_inserts_and_looks_up() {
    let mut tree = EcsModuleTree::new_empty();
    tree.insert_module(EcsModule::new_empty("combat".to_string()));
    tree.insert_module(
        EcsModule::new_empty("combat".to_string()).with_components(vec![component("Health")]),
    );
    assert_eq!(tree.get_modules().len(), 1);
    let m = tree.get_module("combat").unwrap();
    assert_eq!(m.components.as_ref().unwrap().len(), 1);
    assert!(tree.get_module("explore").is_none());
}

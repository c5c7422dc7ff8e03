//! The type checker: field defaults against declared types.

use aethaum_core::ecs::checker::type_checker::{TypeCheckError, TypeChecker};
use aethaum_core::ecs::module::EcsModule;
use aethaum_core::toml_parser::parsed::{
    AethaumType, Component, ComponentField, PrimitiveType, TomlLiteral,
};

fn float_field(name: &str, default: TomlLiteral) -> ComponentField {
    ComponentField {
        name: name.to_string(),
        type_spec: AethaumType::Primitive(PrimitiveType::Float),
        default_value: Some(default),
        description: None,
    }
}

#[test]
fn test_type_check_passed() {
    let components = vec![
        Component {
            name: "Health".to_string(),
            description: None,
            fields: Some(vec![
                float_field("value", TomlLiteral::Float("100.0".to_string())),
                float_field("max_value", TomlLiteral::Float("100.0".to_string())),
            ]),
        },
        Component {
            name: "Position".to_string(),
            description: None,
            fields: Some(vec![
                float_field("x", TomlLiteral::Float("0.0".to_string())),
                float_field("y", TomlLiteral::Float("0.0".to_string())),
            ]),
        },
    ];
    for comp in components {
        for field in comp.fields.unwrap() {
            field.check_type().unwrap();
        }
    }
}

#[test]
fn test_type_check_error() {
    let components = vec![
        Component {
            name: "Health".to_string(),
            description: None,
            fields: Some(vec![
                float_field("value", TomlLiteral::Text("a".to_string())),
                float_field("max_value", TomlLiteral::Float("100.0".to_string())),
            ]),
        },
        Component {
            name: "Position".to_string(),
            description: None,
            fields: Some(vec![
                float_field("x", TomlLiteral::Text("a".to_string())),
                float_field("y", TomlLiteral::Float("0.0".to_string())),
            ]),
        },
    ];
    let mut errors = Vec::new();
    for comp in components {
        for field in comp.fields.unwrap() {
            if let Err(e) = field.check_type() {
                errors.push(e);
            }
        }
    }
    assert_eq!(errors.len(), 2);
}

#[test]
fn check_type_value_match_cases() {
    let ok = TypeChecker::check_type_value_match(
        &AethaumType::Primitive(PrimitiveType::Int),
        &Some(TomlLiteral::Integer(3)),
    );
    assert!(ok.is_ok());

    let absent = TypeChecker::check_type_value_match(
        &AethaumType::Primitive(PrimitiveType::Bool),
        &None,
    );
    assert!(absent.is_ok());

    let bad = TypeChecker::check_type_value_match(
        &AethaumType::Primitive(PrimitiveType::Bool),
        &Some(TomlLiteral::Integer(1)),
    )
    .unwrap_err();
    assert_eq!(
        bad,
        TypeCheckError::TypeMismatch(
            AethaumType::Primitive(PrimitiveType::Bool),
            TomlLiteral::Integer(1),
        )
    );
}

/// A module with two components, each with one field whose default
/// mismatches its declared type, reports exactly two mismatches together.
#[test]
fn aggregation_counts_every_mismatch() {
    let module = EcsModule::new_empty("combat".to_string()).with_components(vec![
        Component {
            name: "Health".to_string(),
            description: None,
            fields: Some(vec![float_field("value", TomlLiteral::Text("a".to_string()))]),
        },
        Component {
            name: "Armour".to_string(),
            description: None,
            fields: Some(vec![float_field("rating", TomlLiteral::Boolean(true))]),
        },
    ]);
    let err = module.check_type().unwrap_err();
    match err {
        TypeCheckError::Multiple { errors } => {
            assert_eq!(errors.len(), 2);
            for e in errors {
                assert!(matches!(e, TypeCheckError::TypeMismatch(_, _)));
            }
        },
        other => panic!("expected an aggregate, got {:?}", other),
    }
}

/// A single mismatch is returned alone, not wrapped.
#[test]
fn single_mismatch_not_wrapped() {
    let module = EcsModule::new_empty("combat".to_string()).with_components(vec![Component {
        name: "Health".to_string(),
        description: None,
        fields: Some(vec![float_field("value", TomlLiteral::Text("a".to_string()))]),
    }]);
    let err = module.check_type().unwrap_err();
    assert!(matches!(err, TypeCheckError::TypeMismatch(_, _)));
}

#[test]
fn mismatch_message_names_type_and_value() {
    let e = TypeCheckError::TypeMismatch(
        AethaumType::Primitive(PrimitiveType::Float),
        TomlLiteral::Text("a".to_string()),
    );
    let m = e.message();
    assert!(m.contains("float"));
    assert!(m.contains("\"a\""));
}

#[test]
fn mismatch_message_renders_numbers() {
    let e = TypeCheckError::TypeMismatch(
        AethaumType::Primitive(PrimitiveType::Str),
        TomlLiteral::Integer(-42),
    );
    let m = e.message();
    assert!(m.contains("str"));
    assert!(m.contains("-42"));
}

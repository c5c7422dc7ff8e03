//! Reference parsing and textual forms.

use aethaum_core::toml_parser::parsed::{
    AethaumType, Component, ComponentConstraint, ComponentRef, EntityProtoRef, EventRef,
    LuaScript, LuaScriptError, PrimitiveType, RefPathError, SystemRef,
};
use aethaum_core::toml_parser::Parser;

#[test]
fn test_parser_new() {
    let content = "test content".to_string();
    let parser: Parser<Component> = Parser::new(content.clone());

    assert_eq!(parser.raw_content, content);
}

#[test]
fn test_parser_new_empty_content() {
    let content = "".to_string();
    let parser: Parser<Component> = Parser::new(content);

    assert_eq!(parser.raw_content, "");
}

#[test]
fn parse_unqualified_component_ref() {
    let r = ComponentRef::try_from_str("Health").unwrap();
    assert_eq!(r.name, "Health");
    assert_eq!(r.module_name, None);
    assert_eq!(r.as_path_str(), "Health");
}

#[test]
fn parse_qualified_component_ref() {
    let r = ComponentRef::try_from_str("combat::Health").unwrap();
    assert_eq!(r.name, "Health");
    assert_eq!(r.module_name, Some("combat".to_string()));
    assert_eq!(r.as_path_str(), "combat::Health");
}

#[test]
fn parse_rejects_nested_qualifier() {
    let e = ComponentRef::try_from_str("a::b::c").unwrap_err();
    assert_eq!(e, RefPathError::NestedModule { text: "a::b::c".to_string() });
}

#[test]
fn parse_rejects_empty_name() {
    let e = ComponentRef::try_from_str("").unwrap_err();
    assert_eq!(e, RefPathError::EmptyName { text: "".to_string() });

    let e = ComponentRef::try_from_str("combat::").unwrap_err();
    assert_eq!(e, RefPathError::EmptyName { text: "combat::".to_string() });
}

#[test]
fn parse_rejects_empty_module() {
    let e = ComponentRef::try_from_str("::Health").unwrap_err();
    assert_eq!(e, RefPathError::EmptyModule { text: "::Health".to_string() });
    assert!(e.message().contains("::Health"));
}

#[test]
fn parse_other_ref_kinds() {
    let e = EventRef::try_from_str("combat::EntityDamaged").unwrap();
    assert_eq!(e.name, "EntityDamaged");
    assert_eq!(e.module_name, Some("combat".to_string()));

    let p = EntityProtoRef::try_from_str("Player").unwrap();
    assert_eq!(p.name, "Player");
    assert_eq!(p.module_name, None);

    let s = SystemRef::try_from_str("combat::HealthSystem").unwrap();
    assert_eq!(s.as_path_str(), "combat::HealthSystem");
}

#[test]
fn global_and_local_forms() {
    let r = ComponentRef::new(None, "Health".to_string());
    let g = r.to_global_ref("combat".to_string());
    assert_eq!(g.module_name, Some("combat".to_string()));
    assert_eq!(g.name, "Health");
    let l = g.to_local_ref();
    assert_eq!(l.module_name, None);
    assert_eq!(l.name, "Health");
}

#[test]
fn ref_error_messages_name_the_text() {
    let e = ComponentRef::try_from_str("a::b::c").unwrap_err();
    assert!(e.message().contains("a::b::c"));
}

#[test]
fn constraint_parsing_reports_first_offending_text() {
    let err = ComponentConstraint::try_from_texts(
        Some(vec!["Good".to_string(), "a::b::c".to_string()]),
        Some(vec!["".to_string()]),
    )
    .unwrap_err();
    assert_eq!(err, RefPathError::NestedModule { text: "a::b::c".to_string() });

    let ok = ComponentConstraint::try_from_texts(
        Some(vec!["Health".to_string(), "combat::Mana".to_string()]),
        None,
    )
    .unwrap();
    assert_eq!(ok.get_included().unwrap().len(), 2);
    assert!(ok.get_excluded().is_none());
}

#[test]
fn lua_script_sources_are_exclusive() {
    let s = LuaScript::from_embed_or_file(Some("return 1".to_string()), None).unwrap().unwrap();
    assert!(s.is_embed());
    assert!(!s.is_file());

    assert_eq!(LuaScript::from_embed_or_file(None, None).unwrap(), None);

    let e = LuaScript::from_embed_or_file(
        Some("return 1".to_string()),
        Some("a.lua".to_string()),
    )
    .unwrap_err();
    assert_eq!(e, LuaScriptError::EmbedAndFile);
}

#[test]
fn type_names_round_trip() {
    for (text, prim) in [
        ("float", PrimitiveType::Float),
        ("int", PrimitiveType::Int),
        ("bool", PrimitiveType::Bool),
        ("str", PrimitiveType::Str),
    ] {
        let t = AethaumType::from_type_str(text);
        assert_eq!(t, AethaumType::Primitive(prim));
        assert!(t.is_primitive());
        assert_eq!(t.as_type_string(), text);
    }
    let c = AethaumType::from_type_str("EntityId");
    assert_eq!(c, AethaumType::Custom("EntityId".to_string()));
    assert!(c.is_custom());
}

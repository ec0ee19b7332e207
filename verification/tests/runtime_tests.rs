use osc::attr::{Attr, Token, TokenKind};
use osc::module_def::build_module;
use osc::property::{MethodDesc, Param, ReceiverKind};
use osc::runtime::{ModuleRuntime, ValueStore, EINVAL, ERROR, OK};

fn read_method(ident: &str) -> MethodDesc {
    MethodDesc {
        ident: ident.to_string(),
        span: 0,
        receiver: ReceiverKind::SharedRef,
        receiver_span: 1,
        params: vec![],
        inputs_span: 2,
        ret: Some("String".to_string()),
        attrs: vec![vec![Token { kind: TokenKind::Ident("reported".to_string()), span: 3 }]],
    }
}

fn write_method(ident: &str) -> MethodDesc {
    MethodDesc {
        ident: ident.to_string(),
        span: 0,
        receiver: ReceiverKind::SharedRef,
        receiver_span: 1,
        params: vec![Param { name: "v".to_string(), ty: "String".to_string(), span: 4 }],
        inputs_span: 2,
        ret: None,
        attrs: vec![vec![Token { kind: TokenKind::Ident("desired".to_string()), span: 3 }]],
    }
}

fn name_attr(value: &str) -> Attr {
    let toks = vec![
        Token { kind: TokenKind::Ident("name".to_string()), span: 0 },
        Token { kind: TokenKind::Equals, span: 1 },
        Token { kind: TokenKind::StrLit(value.to_string()), span: 2 },
    ];
    Attr::parse(&toks).unwrap()
}

fn demo_module() -> ModuleRuntime<ValueStore> {
    // one Read property `name` and one Write property `setName`, both
    // resolving against the same stored field
    let methods = vec![read_method("name"), write_method("set_name")];
    let def = build_module(name_attr("Module"), Some("Demo".to_string()), 0, &methods).unwrap();
    let mut store = ValueStore::new();
    store.bind("name".to_string(), "name".to_string());
    store.bind("set_name".to_string(), "name".to_string());
    store.put("name".to_string(), "\"x\"".to_string());
    ModuleRuntime::open(def, store)
}

#[test]
fn get_reads_and_set_updates_the_shared_field() {
    let mut module = demo_module();
    assert_eq!(module.get("Module", "name").unwrap(), "\"x\"");
    assert_eq!(module.set("Module", "setName", "\"y\""), OK);
    assert_eq!(module.get("Module", "name").unwrap(), "\"y\"");
}

#[test]
fn unknown_property_is_invalid_whatever_the_component() {
    let mut module = demo_module();
    assert_eq!(module.get("Module", "nosuch").unwrap_err(), EINVAL);
    assert_eq!(module.set("Module", "nosuch", "\"y\""), EINVAL);
    // a Write property is not in the read table, and the other way round
    assert_eq!(module.get("Module", "setName").unwrap_err(), EINVAL);
    assert_eq!(module.set("Module", "name", "\"y\""), EINVAL);
}

#[test]
fn unknown_component_is_invalid() {
    let mut module = demo_module();
    assert_eq!(module.get("Other", "name").unwrap_err(), EINVAL);
    assert_eq!(module.set("Other", "setName", "\"y\""), EINVAL);
}

#[test]
fn malformed_payload_is_the_generic_failure() {
    let mut module = demo_module();
    assert_eq!(module.set("Module", "setName", "not json"), ERROR);
    // the stored value is untouched
    assert_eq!(module.get("Module", "name").unwrap(), "\"x\"");
}

#[test]
fn set_normalizes_the_stored_payload() {
    let mut module = demo_module();
    assert_eq!(module.set("Module", "setName", "  {\"a\" : 1 }  "), OK);
    assert_eq!(module.get("Module", "name").unwrap(), "{\"a\":1}");
}

#[test]
fn get_info_renders_the_definition() {
    let module = demo_module();
    assert_eq!(
        module.get_info(),
        "{\"Name\":\"Module\",\"Description\":null,\"Manufacturer\":null,\"VersionMajor\":0,\"VersionMinor\":0,\"VersionPatch\":0,\"VersionTweak\":0,\"Components\":[\"Module\"],\"UserAccount\":0,\"Lifetime\":2}"
    );
}

#[test]
fn unbound_read_is_the_generic_failure() {
    let methods = vec![read_method("lonely")];
    let def = build_module(name_attr("Module"), Some("Demo".to_string()), 0, &methods).unwrap();
    let module = ModuleRuntime::open(def, ValueStore::new());
    assert_eq!(module.get("Module", "lonely").unwrap_err(), ERROR);
}

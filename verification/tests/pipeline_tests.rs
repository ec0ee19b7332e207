use osc::attr::{Attr, DiagKind, Token, TokenKind};
use osc::camel::to_camel_case;
use osc::module_def::build_module;
use osc::module_meta::{Lifetime, Meta, UserAccount};
use osc::property::{
    all_different, parse_property, AccessType, Attr as PropAttr, MethodDesc, Param, ReceiverKind,
};
use osc::version::Version;

fn ident(s: &str, span: u32) -> Token {
    Token { kind: TokenKind::Ident(s.to_string()), span }
}

fn eq_tok(span: u32) -> Token {
    Token { kind: TokenKind::Equals, span }
}

fn str_tok(s: &str, span: u32) -> Token {
    Token { kind: TokenKind::StrLit(s.to_string()), span }
}

fn int_tok(v: u64, span: u32) -> Token {
    Token { kind: TokenKind::IntLit(v), span }
}

fn comma(span: u32) -> Token {
    Token { kind: TokenKind::Comma, span }
}

fn name_args(value: &str, base: u32) -> Vec<Token> {
    vec![ident("name", base), eq_tok(base + 1), str_tok(value, base + 2)]
}

#[test]
fn module_attr_parses_every_key() {
    let toks = vec![
        ident("name", 0),
        eq_tok(1),
        str_tok("Hostname", 2),
        comma(3),
        ident("desc", 4),
        eq_tok(5),
        str_tok("observes the hostname", 6),
        comma(7),
        ident("manufacturer", 8),
        eq_tok(9),
        str_tok("Contoso", 10),
        comma(11),
        ident("version", 12),
        eq_tok(13),
        str_tok("1.2", 14),
        comma(15),
        ident("lifetime", 16),
        eq_tok(17),
        str_tok("short", 18),
        comma(19),
        ident("user", 20),
        eq_tok(21),
        int_tok(1000, 22),
    ];
    let attr = Attr::parse(&toks).unwrap();
    assert_eq!(attr.name.unwrap().value, "Hostname");
    assert_eq!(attr.description.unwrap().value, "observes the hostname");
    assert_eq!(attr.manufacturer.unwrap().value, "Contoso");
    let v = attr.version.unwrap().value;
    assert_eq!(v, Version { major: 1, minor: 2, patch: 0, tweak: 0 });
    assert_eq!(attr.lifetime.unwrap().value, Lifetime::Short);
    assert_eq!(attr.user_account.unwrap().value.0, 1000);
}

#[test]
fn module_attr_rejects_unknown_key() {
    let toks = vec![ident("nmae", 5)];
    let d = Attr::parse(&toks).unwrap_err();
    assert_eq!(d.kind, DiagKind::UnknownArg);
    assert_eq!(d.span, 5);
}

#[test]
fn module_attr_rejects_missing_equals() {
    let toks = vec![ident("name", 0), str_tok("x", 1)];
    let d = Attr::parse(&toks).unwrap_err();
    assert_eq!(d.kind, DiagKind::ExpectedEq);
    assert_eq!(d.span, 1);
}

#[test]
fn module_attr_rejects_wrong_literal() {
    let toks = vec![ident("name", 0), eq_tok(1), int_tok(3, 2)];
    let d = Attr::parse(&toks).unwrap_err();
    assert_eq!(d.kind, DiagKind::ExpectedStrLit);
    assert_eq!(d.span, 2);
}

#[test]
fn module_attr_rejects_bad_lifetime() {
    let toks = vec![ident("lifetime", 0), eq_tok(1), str_tok("forever", 2)];
    let d = Attr::parse(&toks).unwrap_err();
    assert_eq!(d.kind, DiagKind::InvalidLifetime);
    assert_eq!(d.span, 2);
}

#[test]
fn module_attr_rejects_five_segment_version() {
    let toks = vec![ident("version", 0), eq_tok(1), str_tok("1.2.3.4.5", 2)];
    let d = Attr::parse(&toks).unwrap_err();
    assert_eq!(d.kind, DiagKind::InvalidVersion);
    assert_eq!(d.span, 2);
}

#[test]
fn module_attr_rejects_oversized_user_account() {
    let toks = vec![ident("user_account", 0), eq_tok(1), int_tok(2147483648, 2)];
    let d = Attr::parse(&toks).unwrap_err();
    assert_eq!(d.kind, DiagKind::InvalidUserAccount);
    assert_eq!(d.span, 2);
}

#[test]
fn module_attr_rejects_duplicate_within_one_list() {
    let mut toks = name_args("a", 0);
    toks.push(comma(3));
    toks.extend(name_args("b", 4));
    let d = Attr::parse(&toks).unwrap_err();
    assert_eq!(d.kind, DiagKind::DupArg);
    assert_eq!(d.span, 4);
}

#[test]
fn two_annotations_setting_name_are_a_duplicate() {
    let lists = vec![name_args("a", 0), name_args("b", 10)];
    let d = Attr::from_attrs(&lists).unwrap_err();
    assert_eq!(d.kind, DiagKind::DupArg);
    assert_eq!(d.span, 10);
}

#[test]
fn disjoint_annotations_merge() {
    let second = vec![ident("description", 10), eq_tok(11), str_tok("a module", 12)];
    let lists = vec![name_args("a", 0), second];
    let merged = Attr::from_attrs(&lists).unwrap();
    assert_eq!(merged.name.unwrap().value, "a");
    assert_eq!(merged.description.unwrap().value, "a module");
}

#[test]
fn camel_case_derivation() {
    assert_eq!(to_camel_case("foo_bar"), "fooBar");
    assert_eq!(to_camel_case("foo_bar_baz"), "fooBarBaz");
    assert_eq!(to_camel_case("a_b"), "aB");
    assert_eq!(to_camel_case("a__b"), "aB");
    assert_eq!(to_camel_case("_unused"), "unused");
    assert_eq!(to_camel_case(""), "");
}

#[test]
fn camel_case_is_idempotent_on_examples() {
    for s in ["foo_bar", "_leading", "a__b", "already", "setName"] {
        let once = to_camel_case(s);
        let twice = to_camel_case(&once);
        assert_eq!(once, twice);
    }
}

fn read_attr_tokens(span: u32) -> Vec<Token> {
    vec![Token { kind: TokenKind::Ident("reported".to_string()), span }]
}

fn write_attr_tokens(span: u32) -> Vec<Token> {
    vec![Token { kind: TokenKind::Ident("desired".to_string()), span }]
}

fn method(ident_name: &str, receiver: ReceiverKind, params: Vec<Param>, attrs: Vec<Vec<Token>>)
    -> MethodDesc {
    MethodDesc {
        ident: ident_name.to_string(),
        span: 100,
        receiver,
        receiver_span: 101,
        params,
        inputs_span: 102,
        ret: Some("String".to_string()),
        attrs,
    }
}

fn param(name: &str, ty: &str) -> Param {
    Param { name: name.to_string(), ty: ty.to_string(), span: 103 }
}

#[test]
fn property_attr_requires_access() {
    let lists = vec![vec![ident("name", 0), eq_tok(1), str_tok("x", 2)]];
    let d = PropAttr::from_attrs(&lists, 42).unwrap_err();
    assert_eq!(d.kind, DiagKind::MissingAccess);
    assert_eq!(d.span, 42);
}

#[test]
fn property_attr_rejects_two_access_keys() {
    let lists = vec![vec![
        Token { kind: TokenKind::Ident("reported".to_string()), span: 0 },
        comma(1),
        Token { kind: TokenKind::Ident("desired".to_string()), span: 2 },
    ]];
    let d = PropAttr::from_attrs(&lists, 42).unwrap_err();
    assert_eq!(d.kind, DiagKind::DupArg);
    assert_eq!(d.span, 2);
}

#[test]
fn read_property_with_argument_earns_arity_diagnostic() {
    let m = method("name", ReceiverKind::SharedRef, vec![param("v", "String")], vec![
        read_attr_tokens(0),
    ]);
    let (def, diags) = parse_property(&m);
    assert!(def.is_some());
    assert_eq!(diags.len(), 1);
    assert_eq!(diags[0].kind, DiagKind::ReadArity);
    assert_eq!(diags[0].span, 102);
}

#[test]
fn write_property_without_argument_earns_arity_diagnostic() {
    let m = method("set_name", ReceiverKind::SharedRef, vec![], vec![write_attr_tokens(0)]);
    let (def, diags) = parse_property(&m);
    assert!(def.is_some());
    assert_eq!(diags.len(), 1);
    assert_eq!(diags[0].kind, DiagKind::WriteArity);
    assert_eq!(diags[0].span, 102);
}

#[test]
fn exclusive_receiver_is_rejected() {
    let m = method("set_name", ReceiverKind::ExclusiveRef, vec![param("v", "String")], vec![
        write_attr_tokens(0),
    ]);
    let (def, diags) = parse_property(&m);
    assert!(def.is_none());
    assert_eq!(diags.len(), 1);
    assert_eq!(diags[0].kind, DiagKind::InvalidReceiver);
    assert_eq!(diags[0].span, 101);
}

#[test]
fn first_parameter_named_self_is_rejected() {
    let m = method("name", ReceiverKind::NoReceiver, vec![param("self", "String")], vec![
        read_attr_tokens(0),
    ]);
    let (def, diags) = parse_property(&m);
    assert!(def.is_none());
    assert_eq!(diags.len(), 1);
    assert_eq!(diags[0].kind, DiagKind::InvalidReceiver);
    assert_eq!(diags[0].span, 103);
}

#[test]
fn untagged_method_is_ignored() {
    let m = method("helper", ReceiverKind::SharedRef, vec![], vec![]);
    let (def, diags) = parse_property(&m);
    assert!(def.is_none());
    assert!(diags.is_empty());
}

#[test]
fn property_name_prefers_explicit_override() {
    let attrs = vec![vec![
        Token { kind: TokenKind::Ident("reported".to_string()), span: 0 },
        comma(1),
        ident("name", 2),
        eq_tok(3),
        str_tok("host_name", 4),
    ]];
    let m = method("resolve_it", ReceiverKind::SharedRef, vec![], attrs);
    let (def, diags) = parse_property(&m);
    assert!(diags.is_empty());
    let def = def.unwrap();
    // the override survives verbatim, underscores included
    assert_eq!(def.name, "host_name");
    assert_eq!(def.ident, "resolve_it");
    assert_eq!(def.access, AccessType::Read);
}

#[test]
fn colliding_property_names_abort_generation() {
    let methods = vec![
        method("foo_bar", ReceiverKind::SharedRef, vec![], vec![read_attr_tokens(0)]),
        method("fooBar", ReceiverKind::SharedRef, vec![param("v", "i32")], vec![
            write_attr_tokens(1),
        ]),
    ];
    let r = build_module(
        Attr::empty(),
        Some("Demo".to_string()),
        7,
        &methods,
    );
    let diags = r.err().unwrap();
    assert_eq!(diags.len(), 1);
    assert_eq!(diags[0].kind, DiagKind::DupPropertyName);
    assert_eq!(diags[0].span, 7);
}

#[test]
fn distinct_property_names_pass_uniqueness() {
    let methods = vec![
        method("name", ReceiverKind::SharedRef, vec![], vec![read_attr_tokens(0)]),
        method("set_name", ReceiverKind::SharedRef, vec![param("v", "String")], vec![
            write_attr_tokens(1),
        ]),
    ];
    let def = build_module(Attr::empty(), Some("Demo".to_string()), 7, &methods).unwrap();
    assert!(all_different(&def.props));
    assert_eq!(def.name, "Demo");
    assert_eq!(def.props.len(), 2);
    assert_eq!(def.props[0].name, "name");
    assert_eq!(def.props[1].name, "setName");
}

#[test]
fn missing_type_identifier_is_a_hard_error() {
    let r = build_module(Attr::empty(), None, 3, &Vec::new());
    let diags = r.err().unwrap();
    assert_eq!(diags.len(), 1);
    assert_eq!(diags[0].kind, DiagKind::NoTypeIdent);
    assert_eq!(diags[0].span, 3);
}

#[test]
fn arity_diagnostics_abort_generation() {
    let methods = vec![method("name", ReceiverKind::SharedRef, vec![param("v", "i32")], vec![
        read_attr_tokens(0),
    ])];
    let r = build_module(Attr::empty(), Some("Demo".to_string()), 7, &methods);
    let diags = r.err().unwrap();
    assert_eq!(diags.len(), 1);
    assert_eq!(diags[0].kind, DiagKind::ReadArity);
}

#[test]
fn module_defaults_fill_missing_metadata() {
    let def = build_module(Attr::empty(), Some("Demo".to_string()), 0, &Vec::new()).unwrap();
    assert_eq!(def.name, "Demo");
    assert_eq!(def.ty, "Demo");
    assert!(def.description.is_none());
    assert!(def.manufacturer.is_none());
    assert_eq!(def.version, Version { major: 0, minor: 0, patch: 0, tweak: 0 });
    assert_eq!(def.lifetime, Lifetime::Long);
    assert_eq!(def.user_account, UserAccount::Root);
}

#[test]
fn meta_renders_fixed_json() {
    let meta = Meta {
        name: "Demo".to_string(),
        description: Some("a \"demo\" module".to_string()),
        manufacturer: None,
        version: Version { major: 1, minor: 2, patch: 3, tweak: 4 },
        components: vec!["Demo".to_string()],
        user_account: UserAccount::User(1000),
        lifetime: Lifetime::Short,
    };
    assert_eq!(
        meta.to_json(),
        "{\"Name\":\"Demo\",\"Description\":\"a \\\"demo\\\" module\",\"Manufacturer\":null,\"VersionMajor\":1,\"VersionMinor\":2,\"VersionPatch\":3,\"VersionTweak\":4,\"Components\":[\"Demo\"],\"UserAccount\":1000,\"Lifetime\":1}"
    );
}
